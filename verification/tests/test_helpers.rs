use syno_photo_frame::test_helpers::{forms_equal, is_get_photo_form, is_list_form, is_login_form};

#[test]
fn login_form_is_recognized() {
    let form = [
        ("api", "SYNO.Core.Sharing.Login"),
        ("method", "login"),
        ("version", "1"),
        ("sharing_id", "FakeSharingId"),
        ("password", ""),
    ];

    assert!(is_login_form(&form, "FakeSharingId"));
    assert!(!is_login_form(&form, "OtherId"));
    assert!(!is_login_form(&form[..4], "FakeSharingId"));
}

#[test]
fn list_form_is_recognized() {
    let form = [
        ("api", "SYNO.Foto.Browse.Item"),
        ("method", "list"),
        ("version", "1"),
        ("additional", "[\"thumbnail\"]"),
        ("offset", "0"),
        ("limit", "5000"),
        ("sort_by", "takentime"),
        ("sort_direction", "asc"),
    ];

    assert!(is_list_form(&form));
    let mut other = form;
    other[6] = ("sort_by", "filename");
    assert!(!is_list_form(&other));
}

#[test]
fn get_photo_form_is_recognized() {
    let form = [
        ("api", "SYNO.Foto.Thumbnail"),
        ("method", "get"),
        ("version", "2"),
        ("_sharing_id", "FakeSharingId"),
        ("id", "1"),
        ("cache_key", "photo1"),
        ("type", "unit"),
        ("size", "xl"),
    ];

    assert!(is_get_photo_form(&form, "FakeSharingId", "1", "photo1", "xl"));
    assert!(!is_get_photo_form(&form, "FakeSharingId", "1", "photo1", "sm"));
}

#[test]
fn forms_compare_field_by_field_in_order() {
    assert!(forms_equal(&[("a", "1"), ("b", "2")], &[("a", "1"), ("b", "2")]));
    assert!(!forms_equal(&[("a", "1"), ("b", "2")], &[("b", "2"), ("a", "1")]));
    assert!(forms_equal(&[], &[]));
}
