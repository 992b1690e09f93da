use syno_photo_frame::api_client::immich_client::ImmichApiClient;
use syno_photo_frame::api_client::syno_client::SynoApiClient;
use syno_photo_frame::api_photos::parse_share_link;
use syno_photo_frame::cli::Backend;
use syno_photo_frame::share_link::{
    detect_backend, parse_immich_share_link, resolve_backend, parse_photos_share_link, parse_synology_share_link,
    ShareLinkError,
};

#[test]
fn when_synology_share_link_with_alias_then_detect_backend_returns_synology() {
    const SHARE_LINK: &str = "https://fake.dsm/photo/mo/sharing/fakeSharingId";

    let result = detect_backend(SHARE_LINK);

    assert!(matches!(result, Ok(Backend::Synology)));
}

#[test]
fn when_synology_share_link_with_port_then_detect_backend_returns_synology() {
    const SHARE_LINK: &str = "http://fake.dsm:5000/mo/sharing/fakeSharingId";

    let result = detect_backend(SHARE_LINK);

    assert!(matches!(result, Ok(Backend::Synology)));
}

#[test]
fn when_immich_share_link_without_path_then_detect_backend_returns_immich() {
    const SHARE_LINK: &str = "http://fake.immich:2283/share/fake-sharing-link";

    let result = detect_backend(SHARE_LINK);

    assert!(matches!(result, Ok(Backend::Immich)));
}

#[test]
fn when_immich_share_link_with_path_then_detect_backend_returns_immich() {
    const SHARE_LINK: &str = "https://fake.immich/some-path/share/fake-sharing-link";

    let result = detect_backend(SHARE_LINK);

    assert!(matches!(result, Ok(Backend::Immich)));
}

#[test]
fn when_invalid_share_link_then_detect_backend_returns_error() {
    const SHARE_LINK: &str = "http://fake.backend/unknown/path/fake-sharing-link";

    let result = detect_backend(SHARE_LINK);

    assert!(result.is_err());
}

#[test]
fn api_parse_share_link_is_ok_for_valid_link() {
    test_case(
        "https://test.dsm.addr:5001/aa/sharing/FakeSharingId",
        "https://test.dsm.addr:5001/aa/sharing/webapi/entry.cgi",
    );
    test_case(
        "https://test.dsm.addr/photo/aa/sharing/FakeSharingId",
        "https://test.dsm.addr/photo/aa/sharing/webapi/entry.cgi",
    );

    fn test_case(share_link: &str, expected_api_url: &str) {
        let result = parse_share_link(share_link);

        assert!(result.is_ok());
        let (api_url, sharing_id) = result.unwrap();
        assert_eq!(api_url.as_str(), expected_api_url);
        assert_eq!(sharing_id.0, "FakeSharingId");
    }
}

#[test]
fn api_photos_parse_share_link_is_ok_for_valid_link() {
    test_case(
        "https://test.dsm.addr:5001/aa/sharing/FakeSharingId",
        "https://test.dsm.addr:5001/aa/sharing/webapi/entry.cgi",
    );
    test_case(
        "https://test.dsm.addr/photo/aa/sharing/FakeSharingId",
        "https://test.dsm.addr/photo/aa/sharing/webapi/entry.cgi",
    );

    fn test_case(share_link: &str, expected_api_url: &str) {
        let result = parse_share_link(share_link);

        assert!(result.is_ok());
        let (api_url, sharing_id) = result.unwrap();
        assert_eq!(api_url.as_str(), expected_api_url);
        assert_eq!(sharing_id.0, "FakeSharingId");
    }
}

#[test]
fn immich_client_parse_share_link_is_ok_for_valid_link() {
    test_case(
        "http://test.immich.addr:2283/share/fake-Sharing-Id",
        "http://test.immich.addr:2283/api",
    );
    test_case(
        "https://test.immich.addr/fake-path/share/fake-Sharing-Id",
        "https://test.immich.addr/fake-path/api",
    );

    fn test_case(share_link: &str, expected_api_url: &str) {
        let result = parse_immich_share_link(share_link);

        assert!(result.is_ok());
        let link = result.unwrap();
        assert_eq!(link.api_url.as_str(), expected_api_url);
        assert_eq!(link.sharing_id, "fake-Sharing-Id");

        let client = ImmichApiClient::build(&(), share_link).unwrap();
        assert_eq!(client.api_url(), expected_api_url);
        assert_eq!(client.sharing_id(), "fake-Sharing-Id");
    }
}

#[test]
fn syno_client_parse_share_link_is_ok_for_valid_link() {
    test_case(
        "https://test.dsm.addr:5001/aa/sharing/FakeSharingId",
        "https://test.dsm.addr:5001/aa/sharing/webapi/entry.cgi",
        "https://test.dsm.addr:5001/synofoto/api/v2/p/Thumbnail/get",
    );
    test_case(
        "http://test.dsm.addr/photo/aa/sharing/FakeSharingId",
        "http://test.dsm.addr/photo/aa/sharing/webapi/entry.cgi",
        "http://test.dsm.addr/photo/synofoto/api/v2/p/Thumbnail/get",
    );

    fn test_case(share_link: &str, expected_api_url: &str, expected_api_thumbnail_get_url: &str) {
        let result = parse_synology_share_link(share_link);

        assert!(result.is_ok());
        let link = result.unwrap();
        assert_eq!(link.api_url.as_str(), expected_api_url);
        assert_eq!(link.api_thumbnail_get_url.as_str(), expected_api_thumbnail_get_url);
        assert_eq!(link.sharing_id, "FakeSharingId");

        let client = SynoApiClient::build(&(), &(), share_link).unwrap();
        assert_eq!(client.api_url(), expected_api_url);
        assert_eq!(client.api_thumbnail_get_url(), expected_api_thumbnail_get_url);
        assert_eq!(client.sharing_id(), "FakeSharingId");
    }
}

#[test]
fn synology_link_with_trailing_slash_keeps_sharing_id() {
    let link = parse_synology_share_link("https://nas.home/photo/mo/sharing/Abc123/").unwrap();

    assert_eq!(link.sharing_id, "Abc123");
    assert_eq!(link.api_url, "https://nas.home/photo/mo/sharing/webapi/entry.cgi");
    assert_eq!(link.api_thumbnail_get_url, "https://nas.home/photo/synofoto/api/v2/p/Thumbnail/get");
}

#[test]
fn synology_link_without_scheme_is_invalid() {
    assert_eq!(
        parse_synology_share_link("ftp://nas.home/mo/sharing/Abc123"),
        Err(ShareLinkError::InvalidShareLink)
    );
    assert_eq!(
        parse_synology_share_link("nas.home/mo/sharing/Abc123"),
        Err(ShareLinkError::InvalidShareLink)
    );
}

#[test]
fn immich_link_without_share_segment_is_invalid() {
    assert_eq!(
        parse_immich_share_link("https://photos.home/album/abc"),
        Err(ShareLinkError::InvalidShareLink)
    );
    assert!(ImmichApiClient::build(&(), "https://photos.home/album/abc").is_err());
}

#[test]
fn unknown_link_is_reported_as_unknown_backend() {
    assert_eq!(detect_backend("https://example.org/"), Err(ShareLinkError::UnknownBackend));
}

#[test]
fn photos_share_link_takes_last_segment_as_sharing_id() {
    let link = parse_photos_share_link("http://nas/a/b/XyZ").unwrap();

    assert_eq!(link.api_url, "http://nas/a/b/webapi/entry.cgi");
    assert_eq!(link.sharing_id, "XyZ");
}

#[test]
fn invalid_photos_share_link_error_names_the_link() {
    let result = parse_share_link("no-scheme/abc");

    assert_eq!(result, Err("Invalid share link: no-scheme/abc".to_string()));
}

#[test]
fn backend_named_on_command_line_wins_over_detection() {
    const IMMICH_LINK: &str = "https://photos.home/share/abc";

    assert_eq!(resolve_backend(Some(Backend::Synology), IMMICH_LINK), Ok(Backend::Synology));
    assert_eq!(resolve_backend(None, IMMICH_LINK), Ok(Backend::Immich));
    assert_eq!(resolve_backend(None, "https://example.org/"), Err(ShareLinkError::UnknownBackend));
    assert_eq!(resolve_backend(Some(Backend::Immich), "https://example.org/"), Ok(Backend::Immich));
}

#[test]
fn share_link_errors_explain_themselves() {
    assert_eq!(
        ShareLinkError::UnknownBackend.message("x"),
        "Unable to detect the backend type from share link. \
         Try specifying the type explicitly using the --backend option"
    );
    assert_eq!(
        ShareLinkError::InvalidShareLink.message("http://nas/x"),
        "Invalid share link: http://nas/x"
    );
}

#[test]
fn detection_agrees_with_parsers() {
    for link in [
        "https://fake.dsm/photo/mo/sharing/fakeSharingId",
        "http://fake.dsm:5000/mo/sharing/fakeSharingId/",
    ] {
        assert!(parse_synology_share_link(link).is_ok());
        assert_eq!(detect_backend(link), Ok(Backend::Synology));
    }
    assert!(parse_immich_share_link("http://fake.immich:2283/share/x").is_ok());
    assert_eq!(detect_backend("http://fake.immich:2283/share/x"), Ok(Backend::Immich));
    /* Detection admits digits where the Synology parser wants letters */
    assert_eq!(detect_backend("https://nas/a1/sharing/xyz"), Ok(Backend::Synology));
    assert_eq!(
        parse_synology_share_link("https://nas/a1/sharing/xyz"),
        Err(ShareLinkError::InvalidShareLink)
    );
}
