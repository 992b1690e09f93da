//! Checks of request forms against the forms the Synology Photos API expects.

use vstd::prelude::*;

use crate::logging::str_pair_view;
use crate::text::str_eq;

verus! {

pub open spec fn form_view<'a>(form: Seq<(&'a str, &'a str)>) -> Seq<(Seq<char>, Seq<char>)> {
    form.map_values(|p: (&'a str, &'a str)| str_pair_view(p))
}

/// Whether two forms hold the same fields in the same order.
pub fn forms_equal<'a, 'b>(form: &[(&'a str, &'a str)], expected: &[(&'b str, &'b str)]) -> (r:
    bool)
    ensures
        r == (form_view(form@) == form_view(expected@)),
{
    if form.len() != expected.len() {
        assert(form_view(form@).len() != form_view(expected@).len());
        return false;
    }
    let mut i: usize = 0;
    while i < form.len()
        invariant
            i <= form@.len(),
            form@.len() == expected@.len(),
            forall|k: int|
                0 <= k < i ==> str_pair_view(#[trigger] form@[k]) == str_pair_view(expected@[k]),
        decreases form@.len() - i,
    {
        let (k1, v1) = form[i];
        let (k2, v2) = expected[i];
        if !(str_eq(k1, k2) && str_eq(v1, v2)) {
            assert(form_view(form@)[i as int] != form_view(expected@)[i as int]);
            return false;
        }
        i = i + 1;
    }
    assert(form_view(form@) =~= form_view(expected@));
    true
}

/// Whether `form` is the login form for the album `sharing_id`, without password.
pub fn is_login_form(form: &[(&str, &str)], sharing_id: &str) -> (r: bool)
    ensures
        r == (form_view(form@) == seq![
            ("api"@, "SYNO.Core.Sharing.Login"@),
            ("method"@, "login"@),
            ("version"@, "1"@),
            ("sharing_id"@, sharing_id@),
            ("password"@, ""@),
        ]),
{
    let expected = vec![
        ("api", "SYNO.Core.Sharing.Login"),
        ("method", "login"),
        ("version", "1"),
        ("sharing_id", sharing_id),
        ("password", ""),
    ];
    assert(form_view(expected@) =~= seq![
        ("api"@, "SYNO.Core.Sharing.Login"@),
        ("method"@, "login"@),
        ("version"@, "1"@),
        ("sharing_id"@, sharing_id@),
        ("password"@, ""@),
    ]);
    forms_equal(form, expected.as_slice())
}

/// Whether `form` asks for the given photo of the album `sharing_id` in the given size.
pub fn is_get_photo_form(
    form: &[(&str, &str)],
    sharing_id: &str,
    photo_id: &str,
    cache_key: &str,
    size: &str,
) -> (r: bool)
    ensures
        r == (form_view(form@) == seq![
            ("api"@, "SYNO.Foto.Thumbnail"@),
            ("method"@, "get"@),
            ("version"@, "2"@),
            ("_sharing_id"@, sharing_id@),
            ("id"@, photo_id@),
            ("cache_key"@, cache_key@),
            ("type"@, "unit"@),
            ("size"@, size@),
        ]),
{
    let expected = vec![
        ("api", "SYNO.Foto.Thumbnail"),
        ("method", "get"),
        ("version", "2"),
        ("_sharing_id", sharing_id),
        ("id", photo_id),
        ("cache_key", cache_key),
        ("type", "unit"),
        ("size", size),
    ];
    assert(form_view(expected@) =~= seq![
        ("api"@, "SYNO.Foto.Thumbnail"@),
        ("method"@, "get"@),
        ("version"@, "2"@),
        ("_sharing_id"@, sharing_id@),
        ("id"@, photo_id@),
        ("cache_key"@, cache_key@),
        ("type"@, "unit"@),
        ("size"@, size@),
    ]);
    forms_equal(form, expected.as_slice())
}

/// Whether `form` lists the album's first 5000 items with their thumbnails, by shooting date.
pub fn is_list_form(form: &[(&str, &str)]) -> (r: bool)
    ensures
        r == (form_view(form@) == seq![
            ("api"@, "SYNO.Foto.Browse.Item"@),
            ("method"@, "list"@),
            ("version"@, "1"@),
            ("additional"@, "[\"thumbnail\"]"@),
            ("offset"@, "0"@),
            ("limit"@, "5000"@),
            ("sort_by"@, "takentime"@),
            ("sort_direction"@, "asc"@),
        ]),
{
    let expected = vec![
        ("api", "SYNO.Foto.Browse.Item"),
        ("method", "list"),
        ("version", "1"),
        ("additional", "[\"thumbnail\"]"),
        ("offset", "0"),
        ("limit", "5000"),
        ("sort_by", "takentime"),
        ("sort_direction", "asc"),
    ];
    assert(form_view(expected@) =~= seq![
        ("api"@, "SYNO.Foto.Browse.Item"@),
        ("method"@, "list"@),
        ("version"@, "1"@),
        ("additional"@, "[\"thumbnail\"]"@),
        ("offset"@, "0"@),
        ("limit"@, "5000"@),
        ("sort_by"@, "takentime"@),
        ("sort_direction"@, "asc"@),
    ]);
    forms_equal(form, expected.as_slice())
}

} // verus!
