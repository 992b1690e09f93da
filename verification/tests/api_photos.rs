use syno_photo_frame::api_photos::dto::{ApiError, ApiResponse, Login};
use syno_photo_frame::api_photos::{
    album_contents_count_form, album_contents_form, check_status, login_form, photo_query,
    read_api_response, read_login_response, Limit, PhotosApiError, SharingId,
};
use syno_photo_frame::cli::{SortBy, SourceSize};
use syno_photo_frame::test_helpers::{is_get_photo_form, is_login_form};

fn pairs(form: &[(String, String)]) -> Vec<(&str, &str)> {
    form.iter().map(|(k, v)| (k.as_str(), v.as_str())).collect()
}

#[test]
fn login_form_carries_sharing_id_and_password() {
    let sharing_id = SharingId("FakeSharingId".to_string());

    let without = login_form(&sharing_id, &None);
    let with = login_form(&sharing_id, &Some("pw".to_string()));

    assert!(is_login_form(&pairs(&without), "FakeSharingId"));
    assert!(!is_login_form(&pairs(&with), "FakeSharingId"));
    assert_eq!(pairs(&with)[4], ("password", "pw"));
}

#[test]
fn album_forms() {
    assert_eq!(
        pairs(&album_contents_count_form()),
        vec![("api", "SYNO.Foto.Browse.Album"), ("method", "get"), ("version", "1")]
    );
    let form = album_contents_form(0, Limit::try_from(5000).unwrap(), SortBy::TakenTime);
    assert_eq!(
        pairs(&form),
        vec![
            ("api", "SYNO.Foto.Browse.Item"),
            ("method", "list"),
            ("version", "1"),
            ("additional", "[\"thumbnail\"]"),
            ("offset", "0"),
            ("limit", "5000"),
            ("sort_by", "takentime"),
            ("sort_direction", "asc"),
        ]
    );
    let form = album_contents_form(5000, Limit::try_from(17).unwrap(), SortBy::FileName);
    assert_eq!(pairs(&form)[4], ("offset", "5000"));
    assert_eq!(pairs(&form)[5], ("limit", "17"));
    assert_eq!(pairs(&form)[6], ("sort_by", "filename"));
}

#[test]
fn limit_accepts_values_up_to_5000() {
    assert_eq!(Limit::try_from(5000).unwrap().get(), 5000);
    assert_eq!(Limit::try_from(0).unwrap().get(), 0);
    assert_eq!(Limit::try_from(5001), Err("Limit only accepts values up to 5000"));
}

#[test]
fn photo_query_names_photo_and_size() {
    let sharing_id = SharingId("FakeSharingId".to_string());

    let query = photo_query(&sharing_id, 42, "photo42", SourceSize::M);

    assert!(is_get_photo_form(&pairs(&query), "FakeSharingId", "42", "photo42", "m"));
    let negative = photo_query(&sharing_id, -3, "k", SourceSize::S);
    assert_eq!(pairs(&negative)[4], ("id", "-3"));
    assert_eq!(pairs(&negative)[7], ("size", "sm"));
}

#[test]
fn api_answers_are_read_by_success_flag() {
    let ok = ApiResponse { success: true, error: None, data: Some(7u32) };
    let failed: ApiResponse<u32> =
        ApiResponse { success: false, error: Some(ApiError { code: 119 }), data: None };

    assert_eq!(read_api_response("list", ok), Ok(7));
    let error = read_api_response("list", failed).unwrap_err();
    assert_eq!(error, PhotosApiError::InvalidApiResponse("list", 119));
    assert_eq!(error.message(), "Invalid Synology API 'list' response code: 119");
}

#[test]
fn login_answer_is_read() {
    let ok = ApiResponse { success: true, error: None, data: Some(Login {}) };
    let failed: ApiResponse<Login> =
        ApiResponse { success: false, error: Some(ApiError { code: -1 }), data: None };

    assert_eq!(read_login_response(ok), Ok(()));
    let error = read_login_response(failed).unwrap_err();
    assert_eq!(error.message(), "Invalid Synology API 'login' response code: -1");
}

#[test]
fn http_status_must_be_success() {
    assert_eq!(check_status(200), Ok(()));
    assert_eq!(check_status(299), Ok(()));
    assert_eq!(check_status(404), Err(PhotosApiError::InvalidHttpResponse(404)));
    assert_eq!(
        PhotosApiError::InvalidHttpResponse(404).message(),
        "Invalid HTTP response code: 404"
    );
    assert_eq!(PhotosApiError::Reqwest("timeout".to_string()).message(), "timeout");
}
