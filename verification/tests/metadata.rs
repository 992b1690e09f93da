use syno_photo_frame::metadata::{
    locale_from_env, localized_info, localized_photo_info, photo_timestamp, synology_location, Address, Location,
};

fn some(s: &str) -> Option<String> {
    Some(s.to_string())
}

#[test]
fn locale_from_env_lc_all_has_highest_priority() {
    let result = locale_from_env(some("pl_PL.UTF-8"), some("en_GB.UTF-8"), some("da_DK.UTF-8"));

    assert_eq!(result, "pl_PL");
}

#[test]
fn locale_from_env_lc_time_has_second_priority() {
    let result = locale_from_env(None, some("en_GB.UTF-8"), some("da_DK.UTF-8"));

    assert_eq!(result, "en_GB");
}

#[test]
fn locale_from_env_lang_has_lowest_priority() {
    let result = locale_from_env(None, None, some("da_DK.UTF-8"));

    assert_eq!(result, "da_DK");
}

#[test]
fn locale_from_env_when_locale_unset_then_falls_back_to_posix() {
    let result = locale_from_env(None, None, None);

    assert_eq!(result, "POSIX");
}

#[test]
fn locale_from_env_when_invalid_locale_then_falls_back_to_posix() {
    let result =
        locale_from_env(some("not-a-locale"), some("not-a-locale"), some("not-a-locale"));

    assert_eq!(result, "POSIX");
}

#[test]
fn locale_without_codeset_is_taken_whole() {
    assert_eq!(locale_from_env(some("de_DE"), None, None), "de_DE");
}

#[test]
fn metadata_try_format_as_localized_string_formats_date_according_to_locale() {
    let location = synology_location(None);

    let result_pl = localized_photo_info(1760788393, &location, "pl_PL");
    let result_gb = localized_photo_info(1760788393, &location, "en_GB");

    assert_eq!(result_pl, "18.10.2025");
    assert_eq!(result_gb, "18/10/25");
}

#[test]
fn metadata_try_format_as_localized_string_contains_country() {
    let location =
        synology_location(Some(&Address { country: "Denmark".to_string(), ..Default::default() }));

    let result = localized_photo_info(0, &location, "en_GB");

    assert_eq!(result, "01/01/70 Denmark");
}

#[test]
fn metadata_try_format_as_localized_string_contains_area() {
    let location =
        synology_location(Some(&Address { city: "Copenhagen".to_string(), ..Default::default() }));

    let result = localized_photo_info(0, &location, "en_GB");

    assert_eq!(result, "01/01/70 Copenhagen");
}

#[test]
fn metadata_try_format_as_localized_string_contains_area_and_country() {
    let location = synology_location(Some(&Address {
        city: "Copenhagen".to_string(),
        country: "Denmark".to_string(),
        ..Default::default()
    }));

    let result = localized_photo_info(0, &location, "en_GB");

    assert_eq!(result, "01/01/70 Copenhagen, Denmark");
}

#[test]
fn unknown_locale_formats_date_the_posix_way() {
    let result = localized_photo_info(0, &Location::unknown(), "xx_YY");

    assert_eq!(result, localized_photo_info(0, &Location::unknown(), "POSIX"));
    assert_eq!(result, "01/01/70");
}

#[test]
fn locale_whose_date_pattern_chrono_cannot_format_falls_back_to_posix() {
    let location = Location::new(None, some("Thailand"));

    assert_eq!(localized_photo_info(0, &location, "th_TH"), "01/01/70 Thailand");
    assert_eq!(localized_info(0, &Location::unknown(), "fa_IR"), "01/01/70");
    assert_eq!(localized_info(0, &Location::unknown(), "my_MM"), "01/01/70");
}

#[test]
fn location_reads_area_then_country() {
    let both = Location::new(some("Copenhagen"), some("Denmark"));
    let area = Location::new(some("Copenhagen"), None);
    let country = Location::new(None, some("Denmark"));

    assert_eq!(both.to_display_string(), "Copenhagen, Denmark");
    assert_eq!(area.to_display_string(), "Copenhagen");
    assert_eq!(country.to_display_string(), "Denmark");
    assert_eq!(Location::unknown().to_display_string(), "");
}

#[test]
fn photo_time_out_of_range_counts_as_epoch() {
    assert_eq!(photo_timestamp(1760788393), 1760788393);
    assert_eq!(photo_timestamp(u64::MAX), 0);
}

#[test]
fn dates_before_the_epoch_are_formatted() {
    let location = Location::new(None, some("Norway"));

    assert_eq!(localized_info(-86400, &location, "en_GB"), "31/12/69 Norway");
    assert_eq!(localized_info(i64::MAX, &location, "en_GB"), "01/01/70 Norway");
}
