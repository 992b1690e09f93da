use syno_photo_frame::api_client::syno_client::{api_outcome, InvalidApiResponse, SynoApiClient};
use syno_photo_frame::cli::{SortBy, SourceSize};
use syno_photo_frame::metadata::{synology_location, Address};
use syno_photo_frame::test_helpers::{is_get_photo_form, is_list_form};

const SHARE_LINK: &str = "http://fake.dsm.addr/aa/sharing/FakeSharingId";

fn pairs(form: &[(String, String)]) -> Vec<(&str, &str)> {
    form.iter().map(|(k, v)| (k.as_str(), v.as_str())).collect()
}

#[test]
fn login_password_param_is_quoted() {
    const PASSWORD: &str = "P455w0rd";
    let password = Some(PASSWORD.to_owned());
    let sut = SynoApiClient::build(&(), &(), "http://dummy/aa/sharing/FakeSharingId")
        .unwrap()
        .with_password(&password);

    let form = sut.login_form();

    let expected = format!("\"{PASSWORD}\"");
    assert!(pairs(&form).contains(&("password", expected.as_str())));
}

#[test]
fn login_form_without_password_sends_empty_password() {
    let sut = SynoApiClient::build(&(), &(), SHARE_LINK).unwrap();

    let form = sut.login_form();

    assert_eq!(
        pairs(&form),
        vec![
            ("api", "SYNO.Core.Sharing.Login"),
            ("method", "login"),
            ("version", "1"),
            ("sharing_id", "FakeSharingId"),
            ("password", ""),
        ]
    );
}

#[test]
fn photo_metadata_form_lists_album_in_requested_order() {
    let sut = SynoApiClient::build(&(), &(), SHARE_LINK).unwrap();

    let by_time = sut.photo_metadata_form(SortBy::TakenTime);
    let by_name = sut.photo_metadata_form(SortBy::FileName);

    assert_eq!(
        pairs(&by_time),
        vec![
            ("api", "SYNO.Foto.Browse.Item"),
            ("method", "list"),
            ("version", "1"),
            ("additional", "[\"thumbnail\"]"),
            ("offset", "0"),
            ("limit", "5000"),
            ("sort_by", "takentime"),
            ("sort_direction", "asc"),
        ]
    );
    assert!(is_list_form(&pairs(&by_time)));
    assert_eq!(pairs(&by_name)[6], ("sort_by", "filename"));
    assert!(!is_list_form(&pairs(&by_name)));
}

#[test]
fn photo_bytes_query_asks_for_requested_size() {
    let sut = SynoApiClient::build(&(), &(), SHARE_LINK).unwrap();
    for (size, param) in [(SourceSize::S, "sm"), (SourceSize::M, "m"), (SourceSize::L, "xl")] {
        let query = sut.photo_bytes_query(43, "photo43", size);

        assert_eq!(
            pairs(&query),
            vec![
                ("api", "SYNO.Foto.Thumbnail"),
                ("method", "get"),
                ("version", "2"),
                ("_sharing_id", "FakeSharingId"),
                ("id", "43"),
                ("cache_key", "photo43"),
                ("type", "unit"),
                ("size", param),
            ]
        );
        assert!(is_get_photo_form(&pairs(&query), "FakeSharingId", "43", "photo43", param));
    }
}

#[test]
fn api_outcome_reports_request_and_error_code() {
    assert_eq!(api_outcome("login", true, None), Ok(()));
    let error = api_outcome("list", false, Some(119)).unwrap_err();
    assert_eq!(error, InvalidApiResponse("list", 119));
    assert_eq!(error.message(), "Invalid Synology API 'list' response code: 119");
}

fn address() -> Address {
    Address::default()
}

#[test]
fn metadata_location_prioritizes_village() {
    let photo = Address {
        village: "Tiny Village".to_string(),
        town: "Small Town".to_string(),
        city: "Big City".to_string(),
        county: "Bounty County".to_string(),
        state: "Solid State".to_string(),
        ..address()
    };

    let result = synology_location(Some(&photo)).area;

    assert_eq!(result, Some("Tiny Village".to_string()));
}

#[test]
fn metadata_location_prioritizes_town() {
    let photo = Address {
        town: "Small Town".to_string(),
        city: "Big City".to_string(),
        county: "Bounty County".to_string(),
        state: "Solid State".to_string(),
        ..address()
    };

    let result = synology_location(Some(&photo)).area;

    assert_eq!(result, Some("Small Town".to_string()));
}

#[test]
fn metadata_location_prioritizes_city() {
    let photo = Address {
        city: "Big City".to_string(),
        county: "Bounty County".to_string(),
        state: "Solid State".to_string(),
        ..address()
    };

    let result = synology_location(Some(&photo)).area;

    assert_eq!(result, Some("Big City".to_string()));
}

#[test]
fn metadata_location_prioritizes_county() {
    let photo = Address {
        county: "Bounty County".to_string(),
        state: "Solid State".to_string(),
        ..address()
    };

    let result = synology_location(Some(&photo)).area;

    assert_eq!(result, Some("Bounty County".to_string()));
}

#[test]
fn metadata_location_prioritizes_state() {
    let photo = Address {
        state: "Solid State".to_string(),
        ..address()
    };

    let result = synology_location(Some(&photo)).area;

    assert_eq!(result, Some("Solid State".to_string()));
}

#[test]
fn location_of_item_without_address_is_unknown() {
    let location = synology_location(None);

    assert_eq!(location.area, None);
    assert_eq!(location.country, None);
}

#[test]
fn empty_country_is_not_a_country() {
    let photo = Address { city: "Aarhus".to_string(), ..address() };

    let location = synology_location(Some(&photo));

    assert_eq!(location.area, Some("Aarhus".to_string()));
    assert_eq!(location.country, None);
}
