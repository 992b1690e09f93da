//! Immich shared-album client.

use vstd::prelude::*;
use vstd::string::*;

use crate::api_client::LoginError;
use crate::cli::SortBy;
use crate::metadata::Location;
use crate::share_link::{is_immich_link, link_split, parse_immich_share_link, ShareLinkError};
use crate::text::{param, params_view};

verus! {

/// Immich client for one shared album.
pub struct ImmichApiClient<'a, H> {
    http_client: &'a H,
    api_url: String,
    sharing_id: String,
    password: &'a Option<String>,
}

/// Version of the Immich server.
#[derive(Debug, Clone, Copy, PartialEq, Eq, Structural)]
pub struct GetServerVersionResponseDto {
    pub major: u32,
    pub minor: u32,
    pub patch: u32,
}

/// The shared link's album.
#[derive(Debug, Clone, PartialEq, Eq)]
pub struct SharedLinkResponseDto {
    pub album: AlbumResponseDto,
}

#[derive(Debug, Clone, PartialEq, Eq)]
pub struct AlbumResponseDto {
    pub id: String,
}

/// Photo metadata as listed by Immich. The local date-time (the time in the time zone where the
/// photo was taken) is kept as seconds since the epoch and nanoseconds within that second.
#[derive(Debug, Clone, PartialEq, Eq)]
pub struct AssetResponseDto {
    pub id: String,
    pub original_file_name: String,
    pub local_date_time_secs: i64,
    pub local_date_time_nanos: u32,
    pub thumbhash: String,
}

/// Supported servers: any 2.x.x, and any version from 3.0.2 on.
pub open spec fn version_supported(v: GetServerVersionResponseDto) -> bool {
    v.major == 2 || v.major > 3 || (v.major == 3 && (v.minor > 0 || v.patch >= 2))
}

impl GetServerVersionResponseDto {
    pub fn is_supported(&self) -> (r: bool)
        ensures
            r == version_supported(*self),
    {
        self.major == 2 || self.major > 3 || (self.major == 3 && (self.minor > 0 || self.patch
            >= 2))
    }

    /// Servers from 3.0.2 on list album assets through the metadata search; 2.x.x servers
    /// list them with the album.
    pub fn lists_assets_by_search(&self) -> (r: bool)
        ensures
            r == (self.major >= 3),
    {
        self.major >= 3
    }
}

/// What logging in checks of the server version: unsupported versions end the slideshow.
pub fn check_server_version(version: &GetServerVersionResponseDto) -> (r: Result<(), LoginError>)
    ensures
        r is Ok <==> version_supported(*version),
        r matches Err(e) ==> e.0@ == "Immich server version 2.x.x, 3.0.2 or higher is required."@,
{
    if version.is_supported() {
        Ok(())
    } else {
        Err(LoginError("Immich server version 2.x.x, 3.0.2 or higher is required.".to_owned()))
    }
}

/// The request that finds the shared link's album: a login with the password when there is
/// one, otherwise a lookup of the link itself.
pub enum SharedLinkRequest {
    /// POST `{api}/shared-links/login` with the password in the form.
    Login { url: String, password: String },
    /// GET `{api}/shared-links/me`.
    Me { url: String },
}

/// The request listing the album's assets.
pub enum AssetListRequest {
    /// POST `{api}/search/metadata` with JSON `{"albumIds": [album_id]}`.
    Search { url: String, album_id: String },
    /// GET `{api}/albums/{album_id}`.
    Album { url: String },
}

impl<'a, H> ImmichApiClient<'a, H> {
    pub closed spec fn api_url_spec(&self) -> Seq<char> {
        self.api_url@
    }

    pub closed spec fn sharing_id_spec(&self) -> Seq<char> {
        self.sharing_id@
    }

    pub closed spec fn password_spec(&self) -> &'a Option<String> {
        self.password
    }

    pub closed spec fn http_client_spec(&self) -> &'a H {
        self.http_client
    }

    /// A client for the album an Immich share link points to, without password.
    pub fn build(http_client: &'a H, share_link: &str) -> (r: Result<Self, ShareLinkError>)
        ensures
            r is Ok <==> is_immich_link(share_link@),
            r matches Err(e) ==> e == ShareLinkError::InvalidShareLink,
            r matches Ok(client) ==> {
                &&& client.password_spec() is None
                &&& client.http_client_spec() == http_client
                &&& exists|p: Seq<char>, id: Seq<char>, t: Seq<char>|
                    {
                        &&& link_split(share_link@, p, "/share/"@, id, t)
                        &&& client.api_url_spec() == p + "/api"@
                        &&& client.sharing_id_spec() == id
                    }
            },
    {
        match parse_immich_share_link(share_link) {
            Err(e) => Err(e),
            Ok(link) => Ok(
                ImmichApiClient {
                    http_client,
                    api_url: link.api_url,
                    sharing_id: link.sharing_id,
                    password: &None,
                },
            ),
        }
    }

    /// Sets the shared link's password.
    pub fn with_password(self, password: &'a Option<String>) -> (r: Self)
        ensures
            r.password_spec() == password,
            r.api_url_spec() == self.api_url_spec(),
            r.sharing_id_spec() == self.sharing_id_spec(),
            r.http_client_spec() == self.http_client_spec(),
    {
        ImmichApiClient { password, ..self }
    }

    pub fn http_client(&self) -> (r: &'a H)
        ensures
            r == self.http_client_spec(),
    {
        self.http_client
    }

    /// `{prefix}/api`
    pub fn api_url(&self) -> (r: &str)
        ensures
            r@ == self.api_url_spec(),
    {
        self.api_url.as_str()
    }

    pub fn sharing_id(&self) -> (r: &str)
        ensures
            r@ == self.sharing_id_spec(),
    {
        self.sharing_id.as_str()
    }

    /// The query that authorizes requests for the shared album: `key={sharing id}`.
    pub fn key_query(&self) -> (r: Vec<(String, String)>)
        ensures
            params_view(r@) == seq![("key"@, self.sharing_id_spec())],
    {
        let mut query: Vec<(String, String)> = Vec::new();
        query.push(param("key", self.sharing_id.as_str()));
        assert(params_view(query@) =~= seq![("key"@, self.sharing_id_spec())]);
        query
    }

    /// `{api}/server/version`
    pub fn server_version_url(&self) -> (r: String)
        ensures
            r@ == self.api_url_spec() + "/server/version"@,
    {
        self.api_url.clone().concat("/server/version")
    }

    /// The request finding the shared link's album.
    pub fn shared_link_request(&self) -> (r: SharedLinkRequest)
        ensures
            match self.password_spec() {
                Some(p) => (r matches SharedLinkRequest::Login { url, password } && url@
                    == self.api_url_spec() + "/shared-links/login"@ && password@ == p@),
                None => (r matches SharedLinkRequest::Me { url } && url@ == self.api_url_spec()
                    + "/shared-links/me"@),
            },
    {
        match self.password {
            Some(password) => SharedLinkRequest::Login {
                url: self.api_url.clone().concat("/shared-links/login"),
                password: password.clone(),
            },
            None => SharedLinkRequest::Me { url: self.api_url.clone().concat("/shared-links/me") },
        }
    }

    /// The request listing the album's assets on a server of the given version.
    pub fn asset_list_request(&self, album_id: &str, version: &GetServerVersionResponseDto) -> (r:
        AssetListRequest)
        ensures
            version.major >= 3 ==> (r matches AssetListRequest::Search { url, album_id: id } && url@
                == self.api_url_spec() + "/search/metadata"@ && id@ == album_id@),
            version.major < 3 ==> (r matches AssetListRequest::Album { url } && url@
                == self.api_url_spec() + "/albums/"@ + album_id@),
    {
        if version.lists_assets_by_search() {
            AssetListRequest::Search {
                url: self.api_url.clone().concat("/search/metadata"),
                album_id: album_id.to_owned(),
            }
        } else {
            AssetListRequest::Album { url: self.api_url.clone().concat("/albums/").concat(album_id) }
        }
    }

    /// `{api}/assets/{id}`, the asset's details (date and EXIF).
    pub fn asset_info_url(&self, asset_id: &str) -> (r: String)
        ensures
            r@ == self.api_url_spec() + "/assets/"@ + asset_id@,
    {
        self.api_url.clone().concat("/assets/").concat(asset_id)
    }

    /// `{api}/assets/{id}/thumbnail`, the asset's preview image.
    pub fn asset_thumbnail_url(&self, asset_id: &str) -> (r: String)
        ensures
            r@ == self.api_url_spec() + "/assets/"@ + asset_id@ + "/thumbnail"@,
    {
        self.api_url.clone().concat("/assets/").concat(asset_id).concat("/thumbnail")
    }

    /// The query of a preview image request; the thumbhash keeps caches apart.
    pub fn thumbnail_query(&self, thumbhash: &str) -> (r: Vec<(String, String)>)
        ensures
            params_view(r@) == seq![
                ("key"@, self.sharing_id_spec()),
                ("size"@, "preview"@),
                ("c"@, thumbhash@),
            ],
    {
        let mut query: Vec<(String, String)> = Vec::new();
        query.push(param("key", self.sharing_id.as_str()));
        query.push(param("size", "preview"));
        query.push(param("c", thumbhash));
        assert(params_view(query@) =~= seq![
            ("key"@, self.sharing_id_spec()),
            ("size"@, "preview"@),
            ("c"@, thumbhash@),
        ]);
        query
    }
}

/// EXIF summary of an Immich asset.
#[derive(Debug, Clone, PartialEq, Eq)]
pub struct ExifResponseDto {
    pub city: Option<String>,
    pub country: Option<String>,
}

impl ExifResponseDto {
    /// Location of an Immich asset: its city as the area, and its country.
    pub fn location(&self) -> (r: Location)
        ensures
            r.area == self.city,
            r.country == self.country,
    {
        Location::new(self.city.clone(), self.country.clone())
    }
}


/// Order of texts as `String` orders them: code point by code point, a proper prefix first.
pub open spec fn lex_le(a: Seq<char>, b: Seq<char>) -> bool
    decreases a.len(),
{
    if a.len() == 0 {
        true
    } else if b.len() == 0 {
        false
    } else if a[0] != b[0] {
        a[0] < b[0]
    } else {
        lex_le(a.drop_first(), b.drop_first())
    }
}

proof fn lemma_lex_total(a: Seq<char>, b: Seq<char>)
    ensures
        lex_le(a, b) || lex_le(b, a),
    decreases a.len(),
{
    if a.len() > 0 && b.len() > 0 {
        if a[0] == b[0] {
            lemma_lex_total(a.drop_first(), b.drop_first());
        }
    }
}

proof fn lemma_lex_transitive(a: Seq<char>, b: Seq<char>, c: Seq<char>)
    requires
        lex_le(a, b),
        lex_le(b, c),
    ensures
        lex_le(a, c),
    decreases a.len(),
{
    if a.len() > 0 && b.len() > 0 && c.len() > 0 && a[0] == b[0] && b[0] == c[0] {
        lemma_lex_transitive(a.drop_first(), b.drop_first(), c.drop_first());
    }
}

/// Order of the local date-times: seconds first, then nanoseconds.
pub open spec fn taken_le(a: AssetResponseDto, b: AssetResponseDto) -> bool {
    a.local_date_time_secs < b.local_date_time_secs || (a.local_date_time_secs
        == b.local_date_time_secs && a.local_date_time_nanos <= b.local_date_time_nanos)
}

/// The order in which assets are listed: by local date-time, or by file name.
pub open spec fn asset_le(sort_by: SortBy, a: AssetResponseDto, b: AssetResponseDto) -> bool {
    match sort_by {
        SortBy::TakenTime => taken_le(a, b),
        SortBy::FileName => lex_le(a.original_file_name@, b.original_file_name@),
    }
}

/// Assets that the order cannot tell apart.
pub open spec fn asset_tied(sort_by: SortBy, a: AssetResponseDto, b: AssetResponseDto) -> bool {
    asset_le(sort_by, a, b) && asset_le(sort_by, b, a)
}

pub open spec fn assets_sorted(sort_by: SortBy, s: Seq<AssetResponseDto>) -> bool {
    forall|i: int, j: int| 0 <= i < j < s.len() ==> asset_le(sort_by, #[trigger] s[i], #[trigger] s[j])
}

/// The assets tied with `a`, in the order in which they stand in `s`.
pub open spec fn tied_run(sort_by: SortBy, s: Seq<AssetResponseDto>, a: AssetResponseDto) -> Seq<
    AssetResponseDto,
> {
    s.filter(|y: AssetResponseDto| asset_tied(sort_by, y, a))
}

/// Tied assets keep their relative order.
pub open spec fn ties_kept(
    sort_by: SortBy,
    before: Seq<AssetResponseDto>,
    after: Seq<AssetResponseDto>,
) -> bool {
    forall|a: AssetResponseDto| #[trigger]
        tied_run(sort_by, after, a) == tied_run(sort_by, before, a)
}

proof fn lemma_asset_total(sort_by: SortBy, a: AssetResponseDto, b: AssetResponseDto)
    ensures
        asset_le(sort_by, a, b) || asset_le(sort_by, b, a),
{
    if sort_by == SortBy::FileName {
        lemma_lex_total(a.original_file_name@, b.original_file_name@);
    }
}

proof fn lemma_asset_transitive(
    sort_by: SortBy,
    a: AssetResponseDto,
    b: AssetResponseDto,
    c: AssetResponseDto,
)
    requires
        asset_le(sort_by, a, b),
        asset_le(sort_by, b, c),
    ensures
        asset_le(sort_by, a, c),
{
    if sort_by == SortBy::FileName {
        lemma_lex_transitive(a.original_file_name@, b.original_file_name@, c.original_file_name@);
    }
}

/// Whether `a` sorts before `b` or ties with it, by file name.
fn name_le(a: &str, b: &str) -> (r: bool)
    ensures
        r == lex_le(a@, b@),
{
    let na = a.unicode_len();
    let nb = b.unicode_len();
    let mut i: usize = 0;
    assert(a@.skip(0) =~= a@);
    assert(b@.skip(0) =~= b@);
    while i < na && i < nb
        invariant
            na == a@.len(),
            nb == b@.len(),
            i <= na,
            i <= nb,
            lex_le(a@, b@) == lex_le(a@.skip(i as int), b@.skip(i as int)),
        decreases na - i,
    {
        let ca = a.get_char(i);
        let cb = b.get_char(i);
        assert(a@.skip(i as int)[0] == ca);
        assert(b@.skip(i as int)[0] == cb);
        if ca != cb {
            return ca < cb;
        }
        assert(a@.skip(i as int).drop_first() =~= a@.skip(i + 1));
        assert(b@.skip(i as int).drop_first() =~= b@.skip(i + 1));
        i = i + 1;
    }
    assert(i == na ==> a@.skip(i as int).len() == 0);
    i == na
}

/// Whether `a` is listed before `b` or ties with it.
fn asset_le_exec(sort_by: SortBy, a: &AssetResponseDto, b: &AssetResponseDto) -> (r: bool)
    ensures
        r == asset_le(sort_by, *a, *b),
{
    match sort_by {
        SortBy::TakenTime => a.local_date_time_secs < b.local_date_time_secs || (
        a.local_date_time_secs == b.local_date_time_secs && a.local_date_time_nanos
            <= b.local_date_time_nanos),
        SortBy::FileName => name_le(a.original_file_name.as_str(), b.original_file_name.as_str()),
    }
}

proof fn lemma_prepend_multiset(x: AssetResponseDto, s: Seq<AssetResponseDto>)
    ensures
        (seq![x] + s).to_multiset() == s.to_multiset().insert(x),
{
    broadcast use vstd::multiset::group_multiset_axioms;
    broadcast use vstd::seq_lib::group_to_multiset_ensures;

    vstd::seq_lib::lemma_multiset_commutative(seq![x], s);
    assert(seq![x] =~= Seq::<AssetResponseDto>::empty().push(x));
    assert(Seq::<AssetResponseDto>::empty().to_multiset().len() == 0);
    assert(Seq::<AssetResponseDto>::empty().to_multiset() =~= vstd::multiset::Multiset::empty());
    assert((seq![x] + s).to_multiset() =~= s.to_multiset().insert(x));
}

/// The assets of `s` tied with `a`, when `x` comes before them: `x` joins the run when it ties.
proof fn lemma_tied_run_prepend(
    sort_by: SortBy,
    x: AssetResponseDto,
    s: Seq<AssetResponseDto>,
    a: AssetResponseDto,
)
    ensures
        tied_run(sort_by, seq![x] + s, a) == (if asset_tied(sort_by, x, a) {
            seq![x]
        } else {
            Seq::empty()
        }) + tied_run(sort_by, s, a),
{
    s.lemma_filter_prepend(x, |y: AssetResponseDto| asset_tied(sort_by, y, a));
}

/// No asset of `s` ties with `a` when each sorts strictly after an asset that ties with `a`.
proof fn lemma_no_tie_above(
    sort_by: SortBy,
    s: Seq<AssetResponseDto>,
    y: AssetResponseDto,
    a: AssetResponseDto,
)
    requires
        asset_tied(sort_by, y, a),
        forall|i: int| 0 <= i < s.len() ==> !asset_le(sort_by, #[trigger] s[i], y),
    ensures
        tied_run(sort_by, s, a) == Seq::<AssetResponseDto>::empty(),
{
    let pred = |z: AssetResponseDto| asset_tied(sort_by, z, a);
    assert forall|i: int| 0 <= i < s.len() implies !pred(s[i]) by {
        if pred(s[i]) {
            lemma_asset_transitive(sort_by, s[i], a, y);
        }
    }
    s.lemma_all_neg_filter_empty(pred);
}

/// The state of a merge of the sorted lists `l` and `r` from their ends: `l[..m]` and `r[..n]`
/// are still to be merged, and `done` is the sorted merge of the rest.
pub open spec fn merge_state(
    sort_by: SortBy,
    l: Seq<AssetResponseDto>,
    r: Seq<AssetResponseDto>,
    m: int,
    n: int,
    done: Seq<AssetResponseDto>,
) -> bool {
    &&& 0 <= m <= l.len()
    &&& 0 <= n <= r.len()
    &&& assets_sorted(sort_by, l)
    &&& assets_sorted(sort_by, r)
    &&& assets_sorted(sort_by, done)
    &&& forall|j: int, i: int|
        0 <= j < m && 0 <= i < done.len() ==> asset_le(sort_by, #[trigger] l[j], #[trigger] done[i])
    &&& forall|j: int, i: int|
        0 <= j < n && 0 <= i < done.len() ==> asset_le(sort_by, #[trigger] r[j], #[trigger] done[i])
    &&& forall|k: int, j: int|
        m <= k < l.len() && 0 <= j < n ==> !asset_le(sort_by, #[trigger] l[k], #[trigger] r[j])
    &&& done.to_multiset() == (l.subrange(m, l.len() as int) + r.subrange(n, r.len() as int)).to_multiset()
    &&& forall|a: AssetResponseDto| #[trigger]
        tied_run(sort_by, done, a) == tied_run(sort_by, l.subrange(m, l.len() as int), a)
            + tied_run(sort_by, r.subrange(n, r.len() as int), a)
}

proof fn lemma_merge_take_first(
    sort_by: SortBy,
    l: Seq<AssetResponseDto>,
    r: Seq<AssetResponseDto>,
    m: int,
    n: int,
    done: Seq<AssetResponseDto>,
)
    requires
        merge_state(sort_by, l, r, m, n, done),
        m > 0,
        n == 0 || !asset_le(sort_by, l[m - 1], r[n - 1]),
    ensures
        merge_state(sort_by, l, r, m - 1, n, seq![l[m - 1]] + done),
{
    let x = l[m - 1];
    let done2 = seq![x] + done;
    let ls = l.subrange(m, l.len() as int);
    let ls2 = l.subrange(m - 1, l.len() as int);
    let rs = r.subrange(n, r.len() as int);
    assert(ls2 =~= seq![x] + ls);
    if n > 0 {
        lemma_asset_total(sort_by, x, r[n - 1]);
    }
    assert forall|i: int, j: int| 0 <= i < j < done2.len() implies asset_le(
        sort_by,
        #[trigger] done2[i],
        #[trigger] done2[j],
    ) by {
        if i == 0 {
            assert(asset_le(sort_by, l[m - 1], done[j - 1]));
        } else {
            assert(asset_le(sort_by, done[i - 1], done[j - 1]));
        }
    }
    assert forall|j: int, i: int| 0 <= j < m - 1 && 0 <= i < done2.len() implies asset_le(
        sort_by,
        #[trigger] l[j],
        #[trigger] done2[i],
    ) by {
        if i > 0 {
            assert(asset_le(sort_by, l[j], done[i - 1]));
        }
    }
    assert forall|j: int, i: int| 0 <= j < n && 0 <= i < done2.len() implies asset_le(
        sort_by,
        #[trigger] r[j],
        #[trigger] done2[i],
    ) by {
        if i == 0 {
            if j < n - 1 {
                lemma_asset_transitive(sort_by, r[j], r[n - 1], x);
            }
        } else {
            assert(asset_le(sort_by, r[j], done[i - 1]));
        }
    }
    assert forall|k: int, j: int| m - 1 <= k < l.len() && 0 <= j < n implies !asset_le(
        sort_by,
        #[trigger] l[k],
        #[trigger] r[j],
    ) by {
        if k == m - 1 && asset_le(sort_by, x, r[j]) && j < n - 1 {
            lemma_asset_transitive(sort_by, x, r[j], r[n - 1]);
        }
    }
    lemma_prepend_multiset(x, done);
    lemma_prepend_multiset(x, ls + rs);
    assert(ls2 + rs =~= seq![x] + (ls + rs));
    assert forall|a: AssetResponseDto| #[trigger]
        tied_run(sort_by, done2, a) == tied_run(sort_by, ls2, a) + tied_run(sort_by, rs, a) by {
        lemma_tied_run_prepend(sort_by, x, done, a);
        lemma_tied_run_prepend(sort_by, x, ls, a);
        assert(tied_run(sort_by, done, a) == tied_run(sort_by, ls, a) + tied_run(sort_by, rs, a));
        let head: Seq<AssetResponseDto> = if asset_tied(sort_by, x, a) {
            seq![x]
        } else {
            Seq::empty()
        };
        assert(head + (tied_run(sort_by, ls, a) + tied_run(sort_by, rs, a)) =~= (head + tied_run(
            sort_by,
            ls,
            a,
        )) + tied_run(sort_by, rs, a));
    }
}

proof fn lemma_merge_take_second(
    sort_by: SortBy,
    l: Seq<AssetResponseDto>,
    r: Seq<AssetResponseDto>,
    m: int,
    n: int,
    done: Seq<AssetResponseDto>,
)
    requires
        merge_state(sort_by, l, r, m, n, done),
        n > 0,
        m == 0 || asset_le(sort_by, l[m - 1], r[n - 1]),
    ensures
        merge_state(sort_by, l, r, m, n - 1, seq![r[n - 1]] + done),
{
    broadcast use vstd::seq_lib::to_multiset_insert;

    let y = r[n - 1];
    let done2 = seq![y] + done;
    let ls = l.subrange(m, l.len() as int);
    let rs = r.subrange(n, r.len() as int);
    let rs2 = r.subrange(n - 1, r.len() as int);
    assert(rs2 =~= seq![y] + rs);
    assert forall|i: int, j: int| 0 <= i < j < done2.len() implies asset_le(
        sort_by,
        #[trigger] done2[i],
        #[trigger] done2[j],
    ) by {
        if i == 0 {
            assert(asset_le(sort_by, r[n - 1], done[j - 1]));
        } else {
            assert(asset_le(sort_by, done[i - 1], done[j - 1]));
        }
    }
    assert forall|j: int, i: int| 0 <= j < m && 0 <= i < done2.len() implies asset_le(
        sort_by,
        #[trigger] l[j],
        #[trigger] done2[i],
    ) by {
        if i == 0 {
            if j < m - 1 {
                lemma_asset_transitive(sort_by, l[j], l[m - 1], y);
            }
        } else {
            assert(asset_le(sort_by, l[j], done[i - 1]));
        }
    }
    assert forall|j: int, i: int| 0 <= j < n - 1 && 0 <= i < done2.len() implies asset_le(
        sort_by,
        #[trigger] r[j],
        #[trigger] done2[i],
    ) by {
        if i > 0 {
            assert(asset_le(sort_by, r[j], done[i - 1]));
        }
    }
    lemma_prepend_multiset(y, done);
    assert((ls + rs).insert(ls.len() as int, y) =~= ls + rs2);
    assert forall|a: AssetResponseDto| #[trigger]
        tied_run(sort_by, done2, a) == tied_run(sort_by, ls, a) + tied_run(sort_by, rs2, a) by {
        lemma_tied_run_prepend(sort_by, y, done, a);
        lemma_tied_run_prepend(sort_by, y, rs, a);
        assert(tied_run(sort_by, done, a) == tied_run(sort_by, ls, a) + tied_run(sort_by, rs, a));
        if asset_tied(sort_by, y, a) {
            assert forall|i: int| 0 <= i < ls.len() implies !asset_le(sort_by, #[trigger] ls[i], y) by {
                assert(ls[i] == l[m + i]);
                assert(!asset_le(sort_by, l[m + i], r[n - 1]));
            }
            lemma_no_tie_above(sort_by, ls, y, a);
            assert(seq![y] + (Seq::<AssetResponseDto>::empty() + tied_run(sort_by, rs, a)) =~= Seq::<
                AssetResponseDto,
            >::empty() + (seq![y] + tied_run(sort_by, rs, a)));
        } else {
            assert(Seq::<AssetResponseDto>::empty() + (tied_run(sort_by, ls, a) + tied_run(
                sort_by,
                rs,
                a,
            )) =~= tied_run(sort_by, ls, a) + (Seq::<AssetResponseDto>::empty() + tied_run(
                sort_by,
                rs,
                a,
            )));
        }
    }
}

/// Merges two sorted lists into one sorted list; of assets that tie, those of `first` come
/// before those of `second`, each list keeping its order.
fn merge_sorted(first: Vec<AssetResponseDto>, second: Vec<AssetResponseDto>, sort_by: SortBy) -> (r:
    Vec<AssetResponseDto>)
    requires
        assets_sorted(sort_by, first@),
        assets_sorted(sort_by, second@),
    ensures
        assets_sorted(sort_by, r@),
        r@.to_multiset() == (first@ + second@).to_multiset(),
        forall|a: AssetResponseDto| #[trigger]
            tied_run(sort_by, r@, a) == tied_run(sort_by, first@, a) + tied_run(sort_by, second@, a),
{
    let ghost l = first@;
    let ghost r = second@;
    let mut left = first;
    let mut right = second;
    /* The merged tail is built from the back: `backwards` holds `done` in reverse order. */
    let mut backwards: Vec<AssetResponseDto> = Vec::new();
    let ghost mut done: Seq<AssetResponseDto> = Seq::empty();
    proof {
        let empty = Seq::<AssetResponseDto>::empty();
        assert(l.subrange(l.len() as int, l.len() as int) =~= empty);
        assert(r.subrange(r.len() as int, r.len() as int) =~= empty);
        assert(empty + empty =~= empty);
        assert forall|a: AssetResponseDto| #[trigger] tied_run(sort_by, done, a) == tied_run(
            sort_by,
            l.subrange(l.len() as int, l.len() as int),
            a,
        ) + tied_run(sort_by, r.subrange(r.len() as int, r.len() as int), a) by {
            empty.lemma_all_neg_filter_empty(|y: AssetResponseDto| asset_tied(sort_by, y, a));
        }
    }
    while left.len() > 0 || right.len() > 0
        invariant
            merge_state(sort_by, l, r, left@.len() as int, right@.len() as int, done),
            left@ == l.subrange(0, left@.len() as int),
            right@ == r.subrange(0, right@.len() as int),
            backwards@.len() == done.len(),
            forall|i: int| 0 <= i < done.len() ==> #[trigger] backwards@[i] == done[done.len() - 1 - i],
        decreases left@.len() + right@.len(),
    {
        let take_left = if left.len() == 0 {
            false
        } else if right.len() == 0 {
            true
        } else {
            !asset_le_exec(sort_by, &left[left.len() - 1], &right[right.len() - 1])
        };
        let ghost m = left@.len() as int;
        let ghost n = right@.len() as int;
        if take_left {
            proof {
                lemma_merge_take_first(sort_by, l, r, m, n, done);
            }
            let x = left.pop().unwrap();
            backwards.push(x);
            proof {
                done = seq![x] + done;
                assert(left@ =~= l.subrange(0, left@.len() as int));
            }
        } else {
            proof {
                lemma_merge_take_second(sort_by, l, r, m, n, done);
            }
            let y = right.pop().unwrap();
            backwards.push(y);
            proof {
                done = seq![y] + done;
                assert(right@ =~= r.subrange(0, right@.len() as int));
            }
        }
    }
    proof {
        assert(l.subrange(0, l.len() as int) =~= l);
        assert(r.subrange(0, r.len() as int) =~= r);
    }
    let mut merged: Vec<AssetResponseDto> = Vec::new();
    while backwards.len() > 0
        invariant
            backwards@.len() + merged@.len() == done.len(),
            forall|i: int| 0 <= i < backwards@.len() ==> #[trigger] backwards@[i] == done[done.len() - 1 - i],
            merged@ == done.subrange(0, merged@.len() as int),
        decreases backwards@.len(),
    {
        let a = backwards.pop().unwrap();
        merged.push(a);
        proof {
            assert(merged@ =~= done.subrange(0, merged@.len() as int));
        }
    }
    proof {
        assert(merged@ =~= done);
    }
    merged
}

/// Sorts a list of assets, keeping the order of assets that tie (a stable merge sort).
fn merge_sort(assets: Vec<AssetResponseDto>, sort_by: SortBy) -> (r: Vec<AssetResponseDto>)
    ensures
        assets_sorted(sort_by, r@),
        r@.to_multiset() == assets@.to_multiset(),
        ties_kept(sort_by, assets@, r@),
    decreases assets@.len(),
{
    if assets.len() <= 1 {
        return assets;
    }
    let ghost all = assets@;
    let mid = assets.len() / 2;
    let mut first = assets;
    let second = first.split_off(mid);
    let ghost (f, s) = (first@, second@);
    let first = merge_sort(first, sort_by);
    let second = merge_sort(second, sort_by);
    let merged = merge_sorted(first, second, sort_by);
    proof {
        assert(all =~= f + s);
        vstd::seq_lib::lemma_multiset_commutative(f, s);
        vstd::seq_lib::lemma_multiset_commutative(first@, second@);
        assert forall|a: AssetResponseDto| #[trigger]
            tied_run(sort_by, merged@, a) == tied_run(sort_by, all, a) by {
            Seq::filter_distributes_over_add(f, s, |y: AssetResponseDto| asset_tied(sort_by, y, a));
            assert(tied_run(sort_by, first@, a) == tied_run(sort_by, f, a));
            assert(tied_run(sort_by, second@, a) == tied_run(sort_by, s, a));
        }
    }
    merged
}

/// Sorts assets by local date-time or by file name, keeping the order of assets that tie.
pub fn sort_assets(assets: &mut Vec<AssetResponseDto>, sort_by: SortBy)
    ensures
        assets_sorted(sort_by, final(assets)@),
        final(assets)@.to_multiset() == old(assets)@.to_multiset(),
        ties_kept(sort_by, old(assets)@, final(assets)@),
{
    let mut unsorted: Vec<AssetResponseDto> = Vec::new();
    std::mem::swap(&mut unsorted, assets);
    *assets = merge_sort(unsorted, sort_by);
}

} // verus!
