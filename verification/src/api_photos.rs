//! Synology Photos API as used through the sharing web API (`webapi/entry.cgi`): request forms
//! and the reading of its JSON answers.

pub mod dto;

use vstd::prelude::*;
use vstd::string::*;

use crate::cli::{sort_by_param, SortBy, SourceSize};
use crate::share_link::{link_split, parse_photos_share_link, ShareLinkError};
use crate::text::{decimal_text, i32_to_decimal, param, params_view, signed_decimal_text, u32_to_decimal};

verus! {

/// Sharing id of an album.
#[derive(Debug, Clone, PartialEq, Eq)]
pub struct SharingId(pub String);

/// Returns the Synology Photos API URL and the sharing id extracted from an album share link:
/// the id is the link's last path segment.
pub fn parse_share_link(share_link: &str) -> (r: Result<(String, SharingId), String>)
    ensures
        r is Ok <==> exists|p: Seq<char>, id: Seq<char>, t: Seq<char>|
            link_split(share_link@, p, seq!['/'], id, t),
        r matches Err(message) ==> message@ == "Invalid share link: "@ + share_link@,
        r matches Ok(parts) ==> exists|p: Seq<char>, id: Seq<char>, t: Seq<char>|
            {
                &&& link_split(share_link@, p, seq!['/'], id, t)
                &&& parts.0@ == p + "/webapi/entry.cgi"@
                &&& parts.1.0@ == id
            },
{
    match parse_photos_share_link(share_link) {
        Ok(link) => Ok((link.api_url, SharingId(link.sharing_id))),
        Err(_) => Err("Invalid share link: ".to_owned().concat(share_link)),
    }
}

/// Synology Photos API accepts limit values between 0 and 5000
#[derive(Debug, Clone, Copy, PartialEq, Eq, Structural)]
pub struct Limit(u32);

impl Limit {
    #[verifier::type_invariant]
    spec fn within_api_bounds(self) -> bool {
        self.0 <= 5000
    }

    pub closed spec fn value(&self) -> u32 {
        self.0
    }

    /// A limit, when at most 5000.
    pub fn try_from(value: u32) -> (r: Result<Limit, &'static str>)
        ensures
            value <= 5000 ==> (r matches Ok(limit) && limit.value() == value),
            value > 5000 ==> (r matches Err(message) && message@
                == "Limit only accepts values up to 5000"@),
    {
        if value > 5000 {
            Err("Limit only accepts values up to 5000")
        } else {
            Ok(Limit(value))
        }
    }

    pub fn get(&self) -> (r: u32)
        ensures
            r == self.value(),
            r <= 5000,
    {
        proof {
            use_type_invariant(self);
        }
        self.0
    }
}

/// Value of the `size` parameter for a photo of the requested size.
pub open spec fn photo_size_param(size: SourceSize) -> Seq<char> {
    match size {
        SourceSize::S => "sm"@,
        SourceSize::M => "m"@,
        SourceSize::L => "xl"@,
    }
}

/// The login form for the album, with the password (empty without one).
pub fn login_form(sharing_id: &SharingId, password: &Option<String>) -> (r: Vec<(String, String)>)
    ensures
        params_view(r@) == seq![
            ("api"@, "SYNO.Core.Sharing.Login"@),
            ("method"@, "login"@),
            ("version"@, "1"@),
            ("sharing_id"@, sharing_id.0@),
            (
                "password"@,
                match password {
                    Some(p) => p@,
                    None => Seq::<char>::empty(),
                },
            ),
        ],
{
    proof {
        reveal_strlit("");
    }
    let pw: &str = match password {
        Some(p) => p.as_str(),
        None => "",
    };
    assert(pw@ == match password {
        Some(p) => p@,
        None => Seq::<char>::empty(),
    });
    let mut form: Vec<(String, String)> = Vec::new();
    form.push(param("api", "SYNO.Core.Sharing.Login"));
    form.push(param("method", "login"));
    form.push(param("version", "1"));
    form.push(param("sharing_id", sharing_id.0.as_str()));
    form.push(param("password", pw));
    assert(params_view(form@) =~= seq![
        ("api"@, "SYNO.Core.Sharing.Login"@),
        ("method"@, "login"@),
        ("version"@, "1"@),
        ("sharing_id"@, sharing_id.0@),
        ("password"@, pw@),
    ]);
    form
}

/// The form asking for the album (and its item count); sent with the `X-SYNO-SHARING` header.
pub fn album_contents_count_form() -> (r: Vec<(String, String)>)
    ensures
        params_view(r@) == seq![
            ("api"@, "SYNO.Foto.Browse.Album"@),
            ("method"@, "get"@),
            ("version"@, "1"@),
        ],
{
    let mut form: Vec<(String, String)> = Vec::new();
    form.push(param("api", "SYNO.Foto.Browse.Album"));
    form.push(param("method", "get"));
    form.push(param("version", "1"));
    assert(params_view(form@) =~= seq![
        ("api"@, "SYNO.Foto.Browse.Album"@),
        ("method"@, "get"@),
        ("version"@, "1"@),
    ]);
    form
}

/// The form listing `limit` photos of the album from `offset` on, with thumbnail details,
/// ascending by `sort_by`.
pub fn album_contents_form(offset: u32, limit: Limit, sort_by: SortBy) -> (r: Vec<(String, String)>)
    ensures
        params_view(r@) == seq![
            ("api"@, "SYNO.Foto.Browse.Item"@),
            ("method"@, "list"@),
            ("version"@, "1"@),
            ("additional"@, "[\"thumbnail\"]"@),
            ("offset"@, decimal_text(offset as nat)),
            ("limit"@, decimal_text(limit.value() as nat)),
            ("sort_by"@, sort_by_param(sort_by)),
            ("sort_direction"@, "asc"@),
        ],
{
    let offset_text = u32_to_decimal(offset);
    let limit_text = u32_to_decimal(limit.get());
    let mut form: Vec<(String, String)> = Vec::new();
    form.push(param("api", "SYNO.Foto.Browse.Item"));
    form.push(param("method", "list"));
    form.push(param("version", "1"));
    form.push(param("additional", "[\"thumbnail\"]"));
    form.push(param("offset", offset_text.as_str()));
    form.push(param("limit", limit_text.as_str()));
    form.push(param("sort_by", sort_by.as_param()));
    form.push(param("sort_direction", "asc"));
    assert(params_view(form@) =~= seq![
        ("api"@, "SYNO.Foto.Browse.Item"@),
        ("method"@, "list"@),
        ("version"@, "1"@),
        ("additional"@, "[\"thumbnail\"]"@),
        ("offset"@, decimal_text(offset as nat)),
        ("limit"@, decimal_text(limit.value() as nat)),
        ("sort_by"@, sort_by_param(sort_by)),
        ("sort_direction"@, "asc"@),
    ]);
    form
}

/// The query fetching a photo (JPEG bytes) in the requested size.
pub fn photo_query(sharing_id: &SharingId, photo_id: i32, photo_cache_key: &str, source_size: SourceSize) -> (r:
    Vec<(String, String)>)
    ensures
        params_view(r@) == seq![
            ("api"@, "SYNO.Foto.Thumbnail"@),
            ("method"@, "get"@),
            ("version"@, "2"@),
            ("_sharing_id"@, sharing_id.0@),
            ("id"@, signed_decimal_text(photo_id as int)),
            ("cache_key"@, photo_cache_key@),
            ("type"@, "unit"@),
            ("size"@, photo_size_param(source_size)),
        ],
{
    let size: &str = match source_size {
        SourceSize::S => "sm",
        SourceSize::M => "m",
        SourceSize::L => "xl",
    };
    let id_text = i32_to_decimal(photo_id);
    let mut query: Vec<(String, String)> = Vec::new();
    query.push(param("api", "SYNO.Foto.Thumbnail"));
    query.push(param("method", "get"));
    query.push(param("version", "2"));
    query.push(param("_sharing_id", sharing_id.0.as_str()));
    query.push(param("id", id_text.as_str()));
    query.push(param("cache_key", photo_cache_key));
    query.push(param("type", "unit"));
    query.push(param("size", size));
    assert(params_view(query@) =~= seq![
        ("api"@, "SYNO.Foto.Thumbnail"@),
        ("method"@, "get"@),
        ("version"@, "2"@),
        ("_sharing_id"@, sharing_id.0@),
        ("id"@, signed_decimal_text(photo_id as int)),
        ("cache_key"@, photo_cache_key@),
        ("type"@, "unit"@),
        ("size"@, photo_size_param(source_size)),
    ]);
    query
}

/// Failures of Synology Photos API requests.
#[derive(Debug, Clone, PartialEq, Eq)]
pub enum PhotosApiError {
    /// The HTTP exchange failed.
    Reqwest(String),
    /// The HTTP status was not a success.
    InvalidHttpResponse(u16),
    /// The API answered the named request with an error code.
    InvalidApiResponse(&'static str, i32),
}

impl PhotosApiError {
    /// The error as displayed.
    pub fn message(&self) -> (r: String)
        ensures
            r@ == (match self {
                PhotosApiError::Reqwest(e) => e@,
                PhotosApiError::InvalidHttpResponse(status) => "Invalid HTTP response code: "@
                    + decimal_text(*status as nat),
                PhotosApiError::InvalidApiResponse(request, code) => "Invalid Synology API '"@
                    + request@ + "' response code: "@ + signed_decimal_text(*code as int),
            }),
    {
        match self {
            PhotosApiError::Reqwest(e) => e.clone(),
            PhotosApiError::InvalidHttpResponse(status) => "Invalid HTTP response code: ".to_owned().concat(
                u32_to_decimal(*status as u32).as_str(),
            ),
            PhotosApiError::InvalidApiResponse(request, code) => "Invalid Synology API '".to_owned().concat(
                request,
            ).concat("' response code: ").concat(i32_to_decimal(*code).as_str()),
        }
    }
}

/// Reads an answer to the request named `request`: success gives its data (a successful answer
/// carries data), failure the API's error code (a failed answer carries one).
pub fn read_api_response<T>(request: &'static str, response: dto::ApiResponse<T>) -> (r: Result<
    T,
    PhotosApiError,
>)
    requires
        response.success ==> response.data is Some,
        !response.success ==> response.error is Some,
    ensures
        response.success ==> r == Ok::<T, PhotosApiError>(response.data.unwrap()),
        !response.success ==> r == Err::<T, PhotosApiError>(
            PhotosApiError::InvalidApiResponse(request, response.error.unwrap().code),
        ),
{
    if response.success {
        Ok(response.data.unwrap())
    } else {
        Err(PhotosApiError::InvalidApiResponse(request, response.error.unwrap().code))
    }
}

/// Reads a login answer.
pub fn read_login_response(response: dto::ApiResponse<dto::Login>) -> (r: Result<(), PhotosApiError>)
    requires
        !response.success ==> response.error is Some,
    ensures
        response.success ==> r is Ok,
        !response.success ==> r == Err::<(), PhotosApiError>(
            PhotosApiError::InvalidApiResponse("login", response.error.unwrap().code),
        ),
{
    if response.success {
        Ok(())
    } else {
        Err(PhotosApiError::InvalidApiResponse("login", response.error.unwrap().code))
    }
}

/// What an HTTP exchange gives: the status is checked first; only a success is read further.
pub fn check_status(status: u16) -> (r: Result<(), PhotosApiError>)
    ensures
        r is Ok <==> 200 <= status < 300,
        r matches Err(e) ==> e == PhotosApiError::InvalidHttpResponse(status),
{
    if 200 <= status && status < 300 {
        Ok(())
    } else {
        Err(PhotosApiError::InvalidHttpResponse(status))
    }
}

} // verus!
