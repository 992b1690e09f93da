//! Grammar of album share links: which photo server a link points to, and where its API is.

use vstd::prelude::*;
use vstd::string::*;

use crate::cli::Backend;

verus! {

broadcast use vstd::seq_lib::group_seq_properties;

pub open spec fn no_newline(s: Seq<char>) -> bool {
    forall|i: int| 0 <= i < s.len() ==> s[i] != '\n'
}

/// `https?://.+`: an HTTP(S) scheme followed by at least one character other than a newline.
pub open spec fn scheme_prefixed(p: Seq<char>) -> bool {
    ||| (p.len() > 7 && p.subrange(0, 7) == "http://"@ && no_newline(p.subrange(7, p.len() as int)))
    ||| (p.len() > 8 && p.subrange(0, 8) == "https://"@ && no_newline(
        p.subrange(8, p.len() as int),
    ))
}

/// `[^/]+`: a non-empty path segment.
pub open spec fn is_segment(s: Seq<char>) -> bool {
    s.len() > 0 && forall|i: int| 0 <= i < s.len() ==> s[i] != '/'
}

/// `/?$`: the link ends, or ends with one slash.
pub open spec fn is_link_end(t: Seq<char>) -> bool {
    t.len() == 0 || t == seq!['/']
}

/// `[[:word:]]`
pub open spec fn is_word_char(c: char) -> bool {
    ('a' <= c && c <= 'z') || ('A' <= c && c <= 'Z') || ('0' <= c && c <= '9') || c == '_'
}

/// `[[:alpha:]]`
pub open spec fn is_alpha_char(c: char) -> bool {
    ('a' <= c && c <= 'z') || ('A' <= c && c <= 'Z')
}

/// `link` is `p`, then the fixed part `mid` of the pattern, then the sharing id `id`, then an
/// optional final slash `t`; `p` is the scheme and at least one more character.
pub open spec fn link_split(
    link: Seq<char>,
    p: Seq<char>,
    mid: Seq<char>,
    id: Seq<char>,
    t: Seq<char>,
) -> bool {
    &&& link == p + mid + id + t
    &&& scheme_prefixed(p)
    &&& is_segment(id)
    &&& is_link_end(t)
}

/// The part of a Synology Photos link between the server prefix and the sharing id:
/// `/{two letters}/sharing/`.
pub open spec fn synology_mid(w: Seq<char>) -> Seq<char> {
    seq!['/'] + w + "/sharing/"@
}

/// `{p}/{w}/sharing/{id}/?` where `w` is two word characters (`word`) or two letters.
pub open spec fn synology_link(
    link: Seq<char>,
    p: Seq<char>,
    w: Seq<char>,
    id: Seq<char>,
    t: Seq<char>,
    word: bool,
) -> bool {
    &&& w.len() == 2
    &&& forall|i: int|
        0 <= i < 2 ==> if word {
            is_word_char(#[trigger] w[i])
        } else {
            is_alpha_char(w[i])
        }
    &&& link_split(link, p, synology_mid(w), id, t)
}

/// Matches `^https?://.+/[[:word:]]{2}/sharing/[^/]+/?$`.
pub open spec fn is_synology_link(link: Seq<char>) -> bool {
    exists|p: Seq<char>, w: Seq<char>, id: Seq<char>, t: Seq<char>|
        synology_link(link, p, w, id, t, true)
}

/// Matches `^https?://.+/share/[^/]+/?$`.
pub open spec fn is_immich_link(link: Seq<char>) -> bool {
    exists|p: Seq<char>, id: Seq<char>, t: Seq<char>| link_split(link, p, "/share/"@, id, t)
}

/// The backend a share link points to: Synology Photos when the link matches the Synology
/// pattern, otherwise Immich when it matches the Immich pattern.
pub open spec fn detect_backend_spec(link: Seq<char>) -> Option<Backend> {
    if is_synology_link(link) {
        Some(Backend::Synology)
    } else if is_immich_link(link) {
        Some(Backend::Immich)
    } else {
        None
    }
}

/// End of the link without its optional final slash.
pub open spec fn core_end(s: Seq<char>) -> int {
    if s.len() > 0 && s.last() == '/' {
        s.len() - 1
    } else {
        s.len() as int
    }
}

/// Index of the last slash before `end`, or -1.
pub open spec fn last_slash(s: Seq<char>, end: int) -> int
    decreases end,
{
    if end <= 0 {
        -1
    } else if s[end - 1] == '/' {
        end - 1
    } else {
        last_slash(s, end - 1)
    }
}

proof fn lemma_last_slash_at(s: Seq<char>, k: int, end: int)
    requires
        0 <= k < end <= s.len(),
        s[k] == '/',
        forall|i: int| k < i < end ==> s[i] != '/',
    ensures
        last_slash(s, end) == k,
    decreases end,
{
    if end - 1 != k {
        lemma_last_slash_at(s, k, end - 1);
    }
}

proof fn lemma_last_slash_bounds(s: Seq<char>, end: int)
    requires
        0 <= end <= s.len(),
    ensures
        -1 <= last_slash(s, end) < end,
        last_slash(s, end) >= 0 ==> s[last_slash(s, end)] == '/',
        forall|i: int| last_slash(s, end) < i < end ==> s[i] != '/',
    decreases end,
{
    if end > 0 && s[end - 1] != '/' {
        lemma_last_slash_bounds(s, end - 1);
    }
}

/// Splitting a link that matches a pattern: the sharing id is the text after the last slash of
/// the link without its final slash, and the prefix is what precedes the pattern's fixed part.
proof fn lemma_split_determined(
    link: Seq<char>,
    p: Seq<char>,
    mid: Seq<char>,
    id: Seq<char>,
    t: Seq<char>,
)
    requires
        link_split(link, p, mid, id, t),
        mid.len() > 0,
        mid.last() == '/',
    ensures
        core_end(link) == p.len() + mid.len() + id.len(),
        last_slash(link, core_end(link)) == p.len() + mid.len() - 1,
        link.subrange(0, p.len() as int) == p,
        link.subrange(p.len() as int, (p.len() + mid.len()) as int) == mid,
        link.subrange((p.len() + mid.len()) as int, core_end(link)) == id,
{
    let a = p.len() as int;
    let b = a + mid.len();
    let c = b + id.len();
    assert(link.len() == c + t.len());
    assert forall|i: int| 0 <= i < a implies link[i] == p[i] by {
        assert(link[i] == (p + mid + id)[i]);
        assert((p + mid + id)[i] == (p + mid)[i]);
    }
    assert forall|i: int| a <= i < b implies link[i] == mid[i - a] by {
        assert(link[i] == (p + mid + id)[i]);
        assert((p + mid + id)[i] == (p + mid)[i]);
    }
    assert forall|i: int| b <= i < c implies link[i] == id[i - b] by {
        assert(link[i] == (p + mid + id)[i]);
    }
    if t.len() == 1 {
        assert(link.last() == '/');
    } else {
        assert(link.last() == id.last());
    }
    assert(link.subrange(0, a) =~= p);
    assert(link.subrange(a, b) =~= mid);
    assert(link.subrange(b, c) =~= id);
    assert(link[b - 1] == mid.last());
    lemma_last_slash_at(link, b - 1, c);
}

fn chars_of(s: &str) -> (v: Vec<char>)
    ensures
        v@ == s@,
{
    let n = s.unicode_len();
    let mut v: Vec<char> = Vec::new();
    let mut i: usize = 0;
    while i < n
        invariant
            n == s@.len(),
            i <= n,
            v@ == s@.subrange(0, i as int),
        decreases n - i,
    {
        v.push(s.get_char(i));
        i = i + 1;
    }
    v
}

fn last_slash_before(v: &Vec<char>, end: usize) -> (r: Option<usize>)
    requires
        end <= v@.len(),
    ensures
        match r {
            Some(k) => k == last_slash(v@, end as int) && k < end,
            None => last_slash(v@, end as int) == -1,
        },
{
    proof {
        lemma_last_slash_bounds(v@, end as int);
    }
    let mut i: usize = end;
    while i > 0
        invariant
            i <= end <= v@.len(),
            last_slash(v@, end as int) == last_slash(v@, i as int),
        decreases i,
    {
        if v[i - 1] == '/' {
            return Some(i - 1);
        }
        i = i - 1;
    }
    None
}

/// Whether `lit` stands in `v` at `pos`.
fn matches_at(v: &Vec<char>, pos: usize, lit: &str) -> (r: bool)
    ensures
        r == (pos + lit@.len() <= v@.len() && v@.subrange(pos as int, pos + lit@.len()) == lit@),
{
    let n = lit.unicode_len();
    if pos > v.len() || n > v.len() - pos {
        return false;
    }
    let mut i: usize = 0;
    while i < n
        invariant
            n == lit@.len(),
            pos + n <= v@.len(),
            i <= n,
            v@.subrange(pos as int, pos + i) == lit@.subrange(0, i as int),
        decreases n - i,
    {
        assert(pos + i < v.len());
        if v[pos + i] != lit.get_char(i) {
            assert(v@.subrange(pos as int, pos + n)[i as int] != lit@[i as int]);
            return false;
        }
        assert(v@.subrange(pos as int, pos + i + 1) =~= v@.subrange(pos as int, pos + i).push(
            v@[pos + i],
        ));
        assert(lit@.subrange(0, i + 1) =~= lit@.subrange(0, i as int).push(lit@[i as int]));
        i = i + 1;
    }
    assert(lit@.subrange(0, n as int) =~= lit@);
    true
}

fn no_newline_between(v: &Vec<char>, from: usize, to: usize) -> (r: bool)
    requires
        from <= to <= v@.len(),
    ensures
        r == no_newline(v@.subrange(from as int, to as int)),
{
    let mut i = from;
    while i < to
        invariant
            from <= i <= to <= v@.len(),
            forall|k: int| from <= k < i ==> v@[k] != '\n',
        decreases to - i,
    {
        if v[i] == '\n' {
            assert(v@.subrange(from as int, to as int)[i - from] == '\n');
            return false;
        }
        i = i + 1;
    }
    assert forall|k: int| 0 <= k < to - from implies v@.subrange(from as int, to as int)[k]
        != '\n' by {
        assert(v@.subrange(from as int, to as int)[k] == v@[from + k]);
    }
    true
}

fn prefix_is_scheme_prefixed(v: &Vec<char>, end: usize) -> (r: bool)
    requires
        end <= v@.len(),
    ensures
        r == scheme_prefixed(v@.subrange(0, end as int)),
{
    let ghost p = v@.subrange(0, end as int);
    proof {
        reveal_strlit("http://");
        reveal_strlit("https://");
        assert(p.len() > 7 ==> p.subrange(0, 7) =~= v@.subrange(0, 7));
        assert(p.len() > 8 ==> p.subrange(0, 8) =~= v@.subrange(0, 8));
        assert(p.len() > 7 ==> p.subrange(7, p.len() as int) =~= v@.subrange(7, end as int));
        assert(p.len() > 8 ==> p.subrange(8, p.len() as int) =~= v@.subrange(8, end as int));
    }
    if end > 7 && matches_at(v, 0, "http://") && no_newline_between(v, 7, end) {
        return true;
    }
    if end > 8 && matches_at(v, 0, "https://") && no_newline_between(v, 8, end) {
        return true;
    }
    false
}

/// Position of the sharing id: `(last slash, end without final slash)`, when the id is
/// non-empty.
fn locate_sharing_id(v: &Vec<char>) -> (r: Option<(usize, usize)>)
    ensures
        match r {
            Some((j, e)) => {
                &&& e == core_end(v@)
                &&& j == last_slash(v@, e as int)
                &&& 0 <= j
                &&& j + 1 < e
            },
            None => last_slash(v@, core_end(v@)) < 0 || last_slash(v@, core_end(v@)) + 1
                >= core_end(v@),
        },
{
    let n = v.len();
    let e: usize = if n > 0 && v[n - 1] == '/' {
        n - 1
    } else {
        n
    };
    match last_slash_before(v, e) {
        None => None,
        Some(j) => if j + 1 >= e {
            None
        } else {
            Some((j, e))
        },
    }
}

fn word_char(c: char) -> (r: bool)
    ensures
        r == is_word_char(c),
{
    ('a' <= c && c <= 'z') || ('A' <= c && c <= 'Z') || ('0' <= c && c <= '9') || c == '_'
}

fn alpha_char(c: char) -> (r: bool)
    ensures
        r == is_alpha_char(c),
{
    ('a' <= c && c <= 'z') || ('A' <= c && c <= 'Z')
}

/// The checks made on a link whose sharing id lies between `j + 1` and `e`.
pub open spec fn synology_split_ok(v: Seq<char>, j: int, e: int, word: bool) -> bool {
    &&& 11 <= j
    &&& j + 1 < e <= v.len()
    &&& v[j - 11] == '/'
    &&& if word {
        is_word_char(v[j - 10]) && is_word_char(v[j - 9])
    } else {
        is_alpha_char(v[j - 10]) && is_alpha_char(v[j - 9])
    }
    &&& v.subrange(j - 8, j + 1) == "/sharing/"@
    &&& scheme_prefixed(v.subrange(0, j - 11))
}

proof fn lemma_link_end_of_core(v: Seq<char>)
    ensures
        is_link_end(v.subrange(core_end(v), v.len() as int)),
        core_end(v) <= v.len(),
{
    if core_end(v) == v.len() - 1 {
        assert(v.subrange(core_end(v), v.len() as int) =~= seq!['/']);
    } else {
        assert(v.subrange(core_end(v), v.len() as int) =~= Seq::<char>::empty());
    }
}

proof fn lemma_synology_split_sound(v: Seq<char>, j: int, e: int, word: bool)
    requires
        synology_split_ok(v, j, e, word),
        e == core_end(v),
        j == last_slash(v, e),
    ensures
        synology_link(
            v,
            v.subrange(0, j - 11),
            v.subrange(j - 10, j - 8),
            v.subrange(j + 1, e),
            v.subrange(e, v.len() as int),
            word,
        ),
{
    reveal_strlit("/sharing/");
    let p = v.subrange(0, j - 11);
    let w = v.subrange(j - 10, j - 8);
    let id = v.subrange(j + 1, e);
    let t = v.subrange(e, v.len() as int);
    lemma_last_slash_bounds(v, e);
    lemma_link_end_of_core(v);
    assert(synology_mid(w) =~= v.subrange(j - 11, j + 1));
    assert(v =~= p + synology_mid(w) + id + t);
    assert(is_segment(id));
}

proof fn lemma_synology_split_complete(
    v: Seq<char>,
    p: Seq<char>,
    w: Seq<char>,
    id: Seq<char>,
    t: Seq<char>,
    word: bool,
)
    requires
        synology_link(v, p, w, id, t, word),
    ensures
        synology_split_ok(v, last_slash(v, core_end(v)), core_end(v), word),
{
    reveal_strlit("/sharing/");
    let mid = synology_mid(w);
    assert(mid.len() == 12);
    assert(mid.last() == '/');
    lemma_split_determined(v, p, mid, id, t);
    let j = p.len() + 11int;
    assert(v[j - 11] == v.subrange(p.len() as int, j + 1)[0]);
    assert(v[j - 10] == v.subrange(p.len() as int, j + 1)[1]);
    assert(v[j - 9] == v.subrange(p.len() as int, j + 1)[2]);
    assert(v.subrange(j - 8, j + 1) =~= v.subrange(p.len() as int, j + 1).subrange(3, 12));
    assert(mid.subrange(3, 12) =~= "/sharing/"@);
}

/// Positions `(j, e)` where a Synology link splits: the id is `v[j+1..e]`, the two letters
/// `v[j-10..j-8]`, the prefix `v[..j-11]`.
fn split_synology(v: &Vec<char>, word: bool) -> (r: Option<(usize, usize)>)
    ensures
        match r {
            Some((j, e)) => {
                &&& 11 <= j
                &&& j + 1 < e <= v@.len()
                &&& synology_link(
                    v@,
                    v@.subrange(0, j - 11),
                    v@.subrange(j - 10, j - 8),
                    v@.subrange(j + 1, e as int),
                    v@.subrange(e as int, v@.len() as int),
                    word,
                )
            },
            None => !exists|p: Seq<char>, w: Seq<char>, id: Seq<char>, t: Seq<char>|
                synology_link(v@, p, w, id, t, word),
        },
{
    let located = locate_sharing_id(v);
    match located {
        None => {
            proof {
                if exists|p: Seq<char>, w: Seq<char>, id: Seq<char>, t: Seq<char>|
                    synology_link(v@, p, w, id, t, word) {
                    let (p, w, id, t) = choose|
                        p: Seq<char>,
                        w: Seq<char>,
                        id: Seq<char>,
                        t: Seq<char>,
                    | synology_link(v@, p, w, id, t, word);
                    lemma_synology_split_complete(v@, p, w, id, t, word);
                }
            }
            None
        },
        Some((j, e)) => {
            proof {
                reveal_strlit("/sharing/");
            }
            let ok = j >= 11 && v[j - 11] == '/' && (if word {
                word_char(v[j - 10]) && word_char(v[j - 9])
            } else {
                alpha_char(v[j - 10]) && alpha_char(v[j - 9])
            }) && matches_at(v, j - 8, "/sharing/") && prefix_is_scheme_prefixed(v, j - 11);
            assert(ok == synology_split_ok(v@, j as int, e as int, word));
            if ok {
                proof {
                    lemma_synology_split_sound(v@, j as int, e as int, word);
                }
                Some((j, e))
            } else {
                proof {
                    if exists|p: Seq<char>, w: Seq<char>, id: Seq<char>, t: Seq<char>|
                        synology_link(v@, p, w, id, t, word) {
                        let (p, w, id, t) = choose|
                            p: Seq<char>,
                            w: Seq<char>,
                            id: Seq<char>,
                            t: Seq<char>,
                        | synology_link(v@, p, w, id, t, word);
                        lemma_synology_split_complete(v@, p, w, id, t, word);
                    }
                }
                None
            }
        },
    }
}

/// The checks made on a link whose sharing id lies between `j + 1` and `e`, for a link
/// `{prefix}{mid}{id}/?` where `mid` ends with a slash.
pub open spec fn fixed_mid_split_ok(v: Seq<char>, mid: Seq<char>, j: int, e: int) -> bool {
    &&& mid.len() <= j + 1
    &&& j + 1 < e <= v.len()
    &&& v.subrange(j + 1 - mid.len(), j + 1) == mid
    &&& scheme_prefixed(v.subrange(0, j + 1 - mid.len()))
}

proof fn lemma_fixed_mid_split_sound(v: Seq<char>, mid: Seq<char>, j: int, e: int)
    requires
        fixed_mid_split_ok(v, mid, j, e),
        e == core_end(v),
        j == last_slash(v, e),
    ensures
        link_split(
            v,
            v.subrange(0, j + 1 - mid.len()),
            mid,
            v.subrange(j + 1, e),
            v.subrange(e, v.len() as int),
        ),
{
    let p = v.subrange(0, j + 1 - mid.len());
    let id = v.subrange(j + 1, e);
    let t = v.subrange(e, v.len() as int);
    lemma_last_slash_bounds(v, e);
    lemma_link_end_of_core(v);
    assert(v =~= p + mid + id + t);
    assert(is_segment(id));
}

proof fn lemma_fixed_mid_split_complete(
    v: Seq<char>,
    p: Seq<char>,
    mid: Seq<char>,
    id: Seq<char>,
    t: Seq<char>,
)
    requires
        link_split(v, p, mid, id, t),
        mid.len() > 0,
        mid.last() == '/',
    ensures
        fixed_mid_split_ok(v, mid, last_slash(v, core_end(v)), core_end(v)),
{
    lemma_split_determined(v, p, mid, id, t);
}

/// Positions `(j, e)` where a link `{prefix}{mid}{id}/?` splits: the id is `v[j+1..e]`, the
/// prefix ends where `mid` starts.
fn split_fixed_mid(v: &Vec<char>, mid: &str) -> (r: Option<(usize, usize)>)
    requires
        mid@.len() > 0,
        mid@.last() == '/',
    ensures
        match r {
            Some((j, e)) => {
                &&& mid@.len() <= j + 1
                &&& j + 1 < e <= v@.len()
                &&& link_split(
                    v@,
                    v@.subrange(0, j + 1 - mid@.len()),
                    mid@,
                    v@.subrange(j + 1, e as int),
                    v@.subrange(e as int, v@.len() as int),
                )
            },
            None => !exists|p: Seq<char>, id: Seq<char>, t: Seq<char>|
                link_split(v@, p, mid@, id, t),
        },
{
    let located = locate_sharing_id(v);
    let m = mid.unicode_len();
    match located {
        None => {
            proof {
                if exists|p: Seq<char>, id: Seq<char>, t: Seq<char>| link_split(v@, p, mid@, id, t) {
                    let (p, id, t) = choose|p: Seq<char>, id: Seq<char>, t: Seq<char>|
                        link_split(v@, p, mid@, id, t);
                    lemma_fixed_mid_split_complete(v@, p, mid@, id, t);
                }
            }
            None
        },
        Some((j, e)) => {
            let ok = m <= j + 1 && matches_at(v, j + 1 - m, mid) && prefix_is_scheme_prefixed(
                v,
                j + 1 - m,
            );
            assert(ok == fixed_mid_split_ok(v@, mid@, j as int, e as int));
            if ok {
                proof {
                    lemma_fixed_mid_split_sound(v@, mid@, j as int, e as int);
                }
                Some((j, e))
            } else {
                proof {
                    if exists|p: Seq<char>, id: Seq<char>, t: Seq<char>|
                        link_split(v@, p, mid@, id, t) {
                        let (p, id, t) = choose|p: Seq<char>, id: Seq<char>, t: Seq<char>|
                            link_split(v@, p, mid@, id, t);
                        lemma_fixed_mid_split_complete(v@, p, mid@, id, t);
                    }
                }
                None
            }
        },
    }
}

/// Why a share link was refused.
#[derive(Debug, Clone, Copy, PartialEq, Eq, Structural)]
pub enum ShareLinkError {
    /// The link matches neither the Synology Photos nor the Immich pattern.
    UnknownBackend,
    /// The link does not match the pattern of the backend it was given for.
    InvalidShareLink,
}

impl ShareLinkError {
    /// The error as reported for the link `share_link`.
    pub fn message(&self, share_link: &str) -> (r: String)
        ensures
            r@ == match self {
                ShareLinkError::UnknownBackend => "Unable to detect the backend type from share link. Try specifying the type explicitly using the --backend option"@,
                ShareLinkError::InvalidShareLink => "Invalid share link: "@ + share_link@,
            },
    {
        match self {
            ShareLinkError::UnknownBackend => "Unable to detect the backend type from share link. Try specifying the type explicitly using the --backend option".to_owned(),
            ShareLinkError::InvalidShareLink => "Invalid share link: ".to_owned().concat(share_link),
        }
    }
}

/// Detects the type of photo server from the form of its album share link.
pub fn detect_backend(share_link: &str) -> (r: Result<Backend, ShareLinkError>)
    ensures
        r == (match detect_backend_spec(share_link@) {
            Some(backend) => Ok::<Backend, ShareLinkError>(backend),
            None => Err(ShareLinkError::UnknownBackend),
        }),
{
    let v = chars_of(share_link);
    if split_synology(&v, true).is_some() {
        return Ok(Backend::Synology);
    }
    proof {
        reveal_strlit("/share/");
    }
    if split_fixed_mid(&v, "/share/").is_some() {
        return Ok(Backend::Immich);
    }
    Err(ShareLinkError::UnknownBackend)
}

/// The photo server to talk to: the one named on the command line, else the one the share link
/// points to.
pub fn resolve_backend(explicit: Option<Backend>, share_link: &str) -> (r: Result<
    Backend,
    ShareLinkError,
>)
    ensures
        explicit matches Some(b) ==> r == Ok::<Backend, ShareLinkError>(b),
        explicit is None ==> r == (match detect_backend_spec(share_link@) {
            Some(backend) => Ok::<Backend, ShareLinkError>(backend),
            None => Err(ShareLinkError::UnknownBackend),
        }),
{
    match explicit {
        Some(backend) => Ok(backend),
        None => detect_backend(share_link),
    }
}

/// Synology Photos endpoints derived from an album share link.
#[derive(Debug, Clone, PartialEq, Eq)]
pub struct SynologyShareLink {
    /// `{prefix}/{xx}/sharing/webapi/entry.cgi`
    pub api_url: String,
    /// `{prefix}/synofoto/api/v2/p/Thumbnail/get`
    pub api_thumbnail_get_url: String,
    pub sharing_id: String,
}

/// Returns the Synology Photos API URLs and the sharing id of a share link of the form
/// `{prefix}/{two letters}/sharing/{id}`, optionally ending with a slash.
pub fn parse_synology_share_link(share_link: &str) -> (r: Result<SynologyShareLink, ShareLinkError>)
    ensures
        r is Ok <==> exists|p: Seq<char>, w: Seq<char>, id: Seq<char>, t: Seq<char>|
            synology_link(share_link@, p, w, id, t, false),
        r matches Err(e) ==> e == ShareLinkError::InvalidShareLink,
        r matches Ok(parts) ==> exists|p: Seq<char>, w: Seq<char>, id: Seq<char>, t: Seq<char>|
            {
                &&& synology_link(share_link@, p, w, id, t, false)
                &&& parts.api_url@ == p + seq!['/'] + w + "/sharing/webapi/entry.cgi"@
                &&& parts.api_thumbnail_get_url@ == p + "/synofoto/api/v2/p/Thumbnail/get"@
                &&& parts.sharing_id@ == id
            },
{
    let v = chars_of(share_link);
    match split_synology(&v, false) {
        None => Err(ShareLinkError::InvalidShareLink),
        Some((j, e)) => {
            proof {
                reveal_strlit("/sharing/webapi/entry.cgi");
                reveal_strlit("/webapi/entry.cgi");
                reveal_strlit("/synofoto/api/v2/p/Thumbnail/get");
                reveal_strlit("/sharing/");
            }
            let api_url = share_link.substring_char(0, j).to_owned().concat("/webapi/entry.cgi");
            let api_thumbnail_get_url = share_link.substring_char(0, j - 11).to_owned().concat(
                "/synofoto/api/v2/p/Thumbnail/get",
            );
            let sharing_id = share_link.substring_char(j + 1, e).to_owned();
            proof {
                let p = v@.subrange(0, j - 11);
                let w = v@.subrange(j - 10, j - 8);
                let id = v@.subrange(j + 1, e as int);
                let t = v@.subrange(e as int, v@.len() as int);
                assert(synology_link(share_link@, p, w, id, t, false));
                reveal_strlit("/sharing");
                let mid = synology_mid(w);
                assert(mid.len() == 12 && mid.last() == '/');
                lemma_split_determined(v@, p, mid, id, t);
                assert(v@.subrange(0, j as int) =~= p + mid.subrange(0, 11));
                assert(mid.subrange(0, 11) =~= seq!['/'] + w + "/sharing"@);
                assert(v@.subrange(0, j as int) =~= p + seq!['/'] + w + "/sharing"@);
                assert(api_url@ =~= p + seq!['/'] + w + "/sharing/webapi/entry.cgi"@);
            }
            Ok(SynologyShareLink { api_url, api_thumbnail_get_url, sharing_id })
        },
    }
}

/// Immich API endpoint derived from an album share link.
#[derive(Debug, Clone, PartialEq, Eq)]
pub struct ImmichShareLink {
    /// `{prefix}/api`
    pub api_url: String,
    pub sharing_id: String,
}

/// Returns the Immich API URL and the sharing id of a share link of the form
/// `{prefix}/share/{id}`, optionally ending with a slash.
pub fn parse_immich_share_link(share_link: &str) -> (r: Result<ImmichShareLink, ShareLinkError>)
    ensures
        r is Ok <==> is_immich_link(share_link@),
        r matches Err(e) ==> e == ShareLinkError::InvalidShareLink,
        r matches Ok(parts) ==> exists|p: Seq<char>, id: Seq<char>, t: Seq<char>|
            {
                &&& link_split(share_link@, p, "/share/"@, id, t)
                &&& parts.api_url@ == p + "/api"@
                &&& parts.sharing_id@ == id
            },
{
    proof {
        reveal_strlit("/share/");
        reveal_strlit("/api");
    }
    let v = chars_of(share_link);
    match split_fixed_mid(&v, "/share/") {
        None => Err(ShareLinkError::InvalidShareLink),
        Some((j, e)) => {
            let api_url = share_link.substring_char(0, j - 6).to_owned().concat("/api");
            let sharing_id = share_link.substring_char(j + 1, e).to_owned();
            proof {
                assert(link_split(
                    share_link@,
                    v@.subrange(0, j - 6),
                    "/share/"@,
                    v@.subrange(j + 1, e as int),
                    v@.subrange(e as int, v@.len() as int),
                ));
            }
            Ok(ImmichShareLink { api_url, sharing_id })
        },
    }
}

/// Synology Photos API endpoint derived from a share link by the earlier, looser rule: the
/// sharing id is the last path segment.
#[derive(Debug, Clone, PartialEq, Eq)]
pub struct PhotosShareLink {
    /// `{prefix}/webapi/entry.cgi`
    pub api_url: String,
    pub sharing_id: String,
}

/// Returns the Synology Photos API URL and the sharing id of a share link of the form
/// `{prefix}/{id}`, optionally ending with a slash (`^(https?://.+)/([^/]+)/?$`).
pub fn parse_photos_share_link(share_link: &str) -> (r: Result<PhotosShareLink, ShareLinkError>)
    ensures
        r is Ok <==> exists|p: Seq<char>, id: Seq<char>, t: Seq<char>|
            link_split(share_link@, p, seq!['/'], id, t),
        r matches Err(e) ==> e == ShareLinkError::InvalidShareLink,
        r matches Ok(parts) ==> exists|p: Seq<char>, id: Seq<char>, t: Seq<char>|
            {
                &&& link_split(share_link@, p, seq!['/'], id, t)
                &&& parts.api_url@ == p + "/webapi/entry.cgi"@
                &&& parts.sharing_id@ == id
            },
{
    proof {
        reveal_strlit("/");
        reveal_strlit("/webapi/entry.cgi");
        assert("/"@ =~= seq!['/']);
    }
    let v = chars_of(share_link);
    match split_fixed_mid(&v, "/") {
        None => Err(ShareLinkError::InvalidShareLink),
        Some((j, e)) => {
            let api_url = share_link.substring_char(0, j).to_owned().concat("/webapi/entry.cgi");
            let sharing_id = share_link.substring_char(j + 1, e).to_owned();
            proof {
                assert(link_split(
                    share_link@,
                    v@.subrange(0, j as int),
                    seq!['/'],
                    v@.subrange(j + 1, e as int),
                    v@.subrange(e as int, v@.len() as int),
                ));
            }
            Ok(PhotosShareLink { api_url, sharing_id })
        },
    }
}

/// A share link splits in at most one way: prefix, fixed part, sharing id and final slash are
/// all determined by the link.
pub proof fn lemma_share_link_split_unique(
    link: Seq<char>,
    mid: Seq<char>,
    p1: Seq<char>,
    id1: Seq<char>,
    t1: Seq<char>,
    p2: Seq<char>,
    id2: Seq<char>,
    t2: Seq<char>,
)
    requires
        mid.len() > 0,
        mid.last() == '/',
        link_split(link, p1, mid, id1, t1),
        link_split(link, p2, mid, id2, t2),
    ensures
        p1 == p2,
        id1 == id2,
        t1 == t2,
{
    lemma_split_determined(link, p1, mid, id1, t1);
    lemma_split_determined(link, p2, mid, id2, t2);
    assert(t1 =~= link.subrange(core_end(link), link.len() as int));
    assert(t2 =~= link.subrange(core_end(link), link.len() as int));
}

/// A Synology share link splits in at most one way: the server prefix, the two letters before
/// `/sharing/`, the sharing id and the final slash are determined by the link.
pub proof fn lemma_synology_link_unique(
    link: Seq<char>,
    p1: Seq<char>,
    w1: Seq<char>,
    id1: Seq<char>,
    t1: Seq<char>,
    word1: bool,
    p2: Seq<char>,
    w2: Seq<char>,
    id2: Seq<char>,
    t2: Seq<char>,
    word2: bool,
)
    requires
        synology_link(link, p1, w1, id1, t1, word1),
        synology_link(link, p2, w2, id2, t2, word2),
    ensures
        p1 == p2,
        w1 == w2,
        id1 == id2,
        t1 == t2,
{
    reveal_strlit("/sharing/");
    let m1 = synology_mid(w1);
    let m2 = synology_mid(w2);
    lemma_split_determined(link, p1, m1, id1, t1);
    lemma_split_determined(link, p2, m2, id2, t2);
    assert(m1 =~= m2);
    assert(w1 =~= m1.subrange(1, 3));
    assert(w2 =~= m2.subrange(1, 3));
    assert(t1 =~= link.subrange(core_end(link), link.len() as int));
    assert(t2 =~= link.subrange(core_end(link), link.len() as int));
}

/// Backend detection agrees with the link parsers: a link the Synology parser accepts is
/// detected as a Synology Photos link, and a link the Immich parser accepts is detected as an
/// Immich link unless it also has the Synology form.
pub proof fn lemma_parsable_links_are_detected(link: Seq<char>)
    ensures
        (exists|p: Seq<char>, w: Seq<char>, id: Seq<char>, t: Seq<char>|
            synology_link(link, p, w, id, t, false)) ==> detect_backend_spec(link) == Some(
            Backend::Synology,
        ),
        is_immich_link(link) && !is_synology_link(link) ==> detect_backend_spec(link) == Some(
            Backend::Immich,
        ),
{
    if exists|p: Seq<char>, w: Seq<char>, id: Seq<char>, t: Seq<char>|
        synology_link(link, p, w, id, t, false) {
        let (p, w, id, t) = choose|p: Seq<char>, w: Seq<char>, id: Seq<char>, t: Seq<char>|
            synology_link(link, p, w, id, t, false);
        assert(synology_link(link, p, w, id, t, true));
    }
}

} // verus!
