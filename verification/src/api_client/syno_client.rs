//! Synology Photos shared-album client.

use vstd::prelude::*;
use vstd::string::*;

use crate::cli::{sort_by_param, SortBy, SourceSize};
use crate::share_link::{parse_synology_share_link, synology_link, ShareLinkError};
use crate::text::{decimal_text, param, params_view, u32_to_decimal};

verus! {

/// Synology Photos client for one shared album.
pub struct SynoApiClient<'a, H, C> {
    http_client: &'a H,
    cookie_store: &'a C,
    api_url: String,
    api_thumbnail_get_url: String,
    sharing_id: String,
    password: Option<String>,
}

/// Value of the `size` parameter of a thumbnail request.
pub open spec fn size_param(size: SourceSize) -> Seq<char> {
    match size {
        SourceSize::S => "sm"@,
        SourceSize::M => "m"@,
        SourceSize::L => "xl"@,
    }
}

pub fn size_param_of(size: SourceSize) -> (r: &'static str)
    ensures
        r@ == size_param(size),
{
    match size {
        SourceSize::S => "sm",
        SourceSize::M => "m",
        SourceSize::L => "xl",
    }
}

/// The password as sent to the server: wrapped in double quotes.
pub open spec fn quoted(p: Seq<char>) -> Seq<char> {
    seq!['"'] + p + seq!['"']
}

impl<'a, H, C> SynoApiClient<'a, H, C> {
    pub closed spec fn api_url_spec(&self) -> Seq<char> {
        self.api_url@
    }

    pub closed spec fn api_thumbnail_get_url_spec(&self) -> Seq<char> {
        self.api_thumbnail_get_url@
    }

    pub closed spec fn sharing_id_spec(&self) -> Seq<char> {
        self.sharing_id@
    }

    pub closed spec fn password_spec(&self) -> Option<Seq<char>> {
        match self.password {
            Some(p) => Some(p@),
            None => None,
        }
    }

    pub closed spec fn http_client_spec(&self) -> &'a H {
        self.http_client
    }

    pub closed spec fn cookie_store_spec(&self) -> &'a C {
        self.cookie_store
    }

    /// A client for the album a Synology Photos share link points to, without password.
    pub fn build(http_client: &'a H, cookie_store: &'a C, share_link: &str) -> (r: Result<
        Self,
        ShareLinkError,
    >)
        ensures
            r is Ok <==> exists|p: Seq<char>, w: Seq<char>, id: Seq<char>, t: Seq<char>|
                synology_link(share_link@, p, w, id, t, false),
            r matches Err(e) ==> e == ShareLinkError::InvalidShareLink,
            r matches Ok(client) ==> {
                &&& client.password_spec() is None
                &&& client.http_client_spec() == http_client
                &&& client.cookie_store_spec() == cookie_store
                &&& exists|p: Seq<char>, w: Seq<char>, id: Seq<char>, t: Seq<char>|
                    {
                        &&& synology_link(share_link@, p, w, id, t, false)
                        &&& client.api_url_spec() == p + seq!['/'] + w
                            + "/sharing/webapi/entry.cgi"@
                        &&& client.api_thumbnail_get_url_spec() == p
                            + "/synofoto/api/v2/p/Thumbnail/get"@
                        &&& client.sharing_id_spec() == id
                    }
            },
    {
        match parse_synology_share_link(share_link) {
            Err(e) => Err(e),
            Ok(link) => Ok(
                SynoApiClient {
                    http_client,
                    cookie_store,
                    api_url: link.api_url,
                    api_thumbnail_get_url: link.api_thumbnail_get_url,
                    sharing_id: link.sharing_id,
                    password: None,
                },
            ),
        }
    }

    /// Sets the link protection password; the server expects it in double quotes.
    pub fn with_password(self, password: &Option<String>) -> (r: Self)
        ensures
            r.password_spec() == (match password {
                Some(p) => Some(quoted(p@)),
                None => None,
            }),
            r.api_url_spec() == self.api_url_spec(),
            r.api_thumbnail_get_url_spec() == self.api_thumbnail_get_url_spec(),
            r.sharing_id_spec() == self.sharing_id_spec(),
            r.http_client_spec() == self.http_client_spec(),
            r.cookie_store_spec() == self.cookie_store_spec(),
    {
        proof {
            reveal_strlit("\"");
        }
        let password = match password {
            Some(p) => Some("\"".to_owned().concat(p.as_str()).concat("\"")),
            None => None,
        };
        SynoApiClient { password, ..self }
    }

    pub fn http_client(&self) -> (r: &'a H)
        ensures
            r == self.http_client_spec(),
    {
        self.http_client
    }

    pub fn cookie_store(&self) -> (r: &'a C)
        ensures
            r == self.cookie_store_spec(),
    {
        self.cookie_store
    }

    /// `{prefix}/{xx}/sharing/webapi/entry.cgi`, where logins and listings are posted.
    pub fn api_url(&self) -> (r: &str)
        ensures
            r@ == self.api_url_spec(),
    {
        self.api_url.as_str()
    }

    /// Where photo bytes are fetched.
    pub fn api_thumbnail_get_url(&self) -> (r: &str)
        ensures
            r@ == self.api_thumbnail_get_url_spec(),
    {
        self.api_thumbnail_get_url.as_str()
    }

    /// The album's sharing id, also sent as the `X-SYNO-SHARING` header of listings.
    pub fn sharing_id(&self) -> (r: &str)
        ensures
            r@ == self.sharing_id_spec(),
    {
        self.sharing_id.as_str()
    }

    /// The form of the login request: the sharing id and the (quoted) password, empty without
    /// one.
    pub fn login_form(&self) -> (r: Vec<(String, String)>)
        ensures
            params_view(r@) == seq![
                ("api"@, "SYNO.Core.Sharing.Login"@),
                ("method"@, "login"@),
                ("version"@, "1"@),
                ("sharing_id"@, self.sharing_id_spec()),
                (
                    "password"@,
                    match self.password_spec() {
                        Some(p) => p,
                        None => Seq::<char>::empty(),
                    },
                ),
            ],
    {
        proof {
            reveal_strlit("");
        }
        let password: &str = match &self.password {
            Some(p) => p.as_str(),
            None => "",
        };
        assert(password@ == match self.password_spec() {
            Some(p) => p,
            None => Seq::<char>::empty(),
        });
        let mut form: Vec<(String, String)> = Vec::new();
        form.push(param("api", "SYNO.Core.Sharing.Login"));
        form.push(param("method", "login"));
        form.push(param("version", "1"));
        form.push(param("sharing_id", self.sharing_id.as_str()));
        form.push(param("password", password));
        assert(params_view(form@) =~= seq![
            ("api"@, "SYNO.Core.Sharing.Login"@),
            ("method"@, "login"@),
            ("version"@, "1"@),
            ("sharing_id"@, self.sharing_id_spec()),
            ("password"@, password@),
        ]);
        form
    }

    /// The form listing the album's photos with their thumbnail details, at most 5000, in the
    /// given sort order.
    pub fn photo_metadata_form(&self, sort_by: SortBy) -> (r: Vec<(String, String)>)
        ensures
            params_view(r@) == seq![
                ("api"@, "SYNO.Foto.Browse.Item"@),
                ("method"@, "list"@),
                ("version"@, "1"@),
                ("additional"@, "[\"thumbnail\"]"@),
                ("offset"@, "0"@),
                ("limit"@, "5000"@),
                ("sort_by"@, sort_by_param(sort_by)),
                ("sort_direction"@, "asc"@),
            ],
    {
        let mut form: Vec<(String, String)> = Vec::new();
        form.push(param("api", "SYNO.Foto.Browse.Item"));
        form.push(param("method", "list"));
        form.push(param("version", "1"));
        form.push(param("additional", "[\"thumbnail\"]"));
        form.push(param("offset", "0"));
        form.push(param("limit", "5000"));
        form.push(param("sort_by", sort_by.as_param()));
        form.push(param("sort_direction", "asc"));
        assert(params_view(form@) =~= seq![
            ("api"@, "SYNO.Foto.Browse.Item"@),
            ("method"@, "list"@),
            ("version"@, "1"@),
            ("additional"@, "[\"thumbnail\"]"@),
            ("offset"@, "0"@),
            ("limit"@, "5000"@),
            ("sort_by"@, sort_by_param(sort_by)),
            ("sort_direction"@, "asc"@),
        ]);
        form
    }

    /// The query fetching the photo `photo_id` of the album in the requested size.
    pub fn photo_bytes_query(&self, photo_id: u32, cache_key: &str, source_size: SourceSize) -> (r:
        Vec<(String, String)>)
        ensures
            params_view(r@) == seq![
                ("api"@, "SYNO.Foto.Thumbnail"@),
                ("method"@, "get"@),
                ("version"@, "2"@),
                ("_sharing_id"@, self.sharing_id_spec()),
                ("id"@, decimal_text(photo_id as nat)),
                ("cache_key"@, cache_key@),
                ("type"@, "unit"@),
                ("size"@, size_param(source_size)),
            ],
    {
        let id = u32_to_decimal(photo_id);
        let mut query: Vec<(String, String)> = Vec::new();
        query.push(param("api", "SYNO.Foto.Thumbnail"));
        query.push(param("method", "get"));
        query.push(param("version", "2"));
        query.push(param("_sharing_id", self.sharing_id.as_str()));
        query.push(param("id", id.as_str()));
        query.push(param("cache_key", cache_key));
        query.push(param("type", "unit"));
        query.push(param("size", size_param_of(source_size)));
        assert(params_view(query@) =~= seq![
            ("api"@, "SYNO.Foto.Thumbnail"@),
            ("method"@, "get"@),
            ("version"@, "2"@),
            ("_sharing_id"@, self.sharing_id_spec()),
            ("id"@, decimal_text(photo_id as nat)),
            ("cache_key"@, cache_key@),
            ("type"@, "unit"@),
            ("size"@, size_param(source_size)),
        ]);
        query
    }
}

/// Body of a successful login response.
#[derive(Debug, Clone, Copy, PartialEq, Eq, Structural)]
pub struct Login {}

/// A Synology API request answered with an error code.
#[derive(Debug, Clone, Copy, PartialEq, Eq)]
pub struct InvalidApiResponse(pub &'static str, pub u16);

/// How a Synology API response is read: success, or the request's name with the error code.
/// A failed response carries an error code.
pub fn api_outcome(request: &'static str, success: bool, error_code: Option<u16>) -> (r: Result<
    (),
    InvalidApiResponse,
>)
    requires
        success || error_code is Some,
    ensures
        success ==> r is Ok,
        !success ==> r == Err::<(), InvalidApiResponse>(
            InvalidApiResponse(request, error_code.unwrap()),
        ),
{
    if success {
        Ok(())
    } else {
        Err(InvalidApiResponse(request, error_code.unwrap()))
    }
}

impl InvalidApiResponse {
    /// "Invalid Synology API '{request}' response code: {code}"
    pub fn message(&self) -> (r: String)
        ensures
            r@ == "Invalid Synology API '"@ + self.0@ + "' response code: "@ + decimal_text(
                self.1 as nat,
            ),
    {
        "Invalid Synology API '".to_owned().concat(self.0).concat("' response code: ").concat(
            u32_to_decimal(self.1 as u32).as_str(),
        )
    }
}

} // verus!
