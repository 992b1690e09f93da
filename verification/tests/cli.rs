use syno_photo_frame::cli::{
    parse_u64, try_parse_duration, IntervalError, Order, Rotation, SortBy,
};

#[test]
fn rotation_is_read_from_degrees() {
    assert_eq!(Rotation::parse_degrees("0"), Some(Rotation::D0));
    assert_eq!(Rotation::parse_degrees("90"), Some(Rotation::D90));
    assert_eq!(Rotation::parse_degrees("180"), Some(Rotation::D180));
    assert_eq!(Rotation::parse_degrees("270"), Some(Rotation::D270));
    assert_eq!(Rotation::parse_degrees("45"), None);
    assert_eq!(Rotation::parse_degrees(""), None);
}

#[test]
fn rotation_counts_quarter_turns() {
    assert_eq!(Rotation::D0.quarter_turns(), 0);
    assert_eq!(Rotation::D90.quarter_turns(), 1);
    assert_eq!(Rotation::D180.quarter_turns(), 2);
    assert_eq!(Rotation::D270.quarter_turns(), 3);
}

#[test]
fn interval_must_be_a_number_of_at_least_five_seconds() {
    assert_eq!(try_parse_duration("30"), Ok(30));
    assert_eq!(try_parse_duration("5"), Ok(5));
    assert_eq!(try_parse_duration("4"), Err(IntervalError::TooShort));
    assert_eq!(try_parse_duration("0"), Err(IntervalError::TooShort));
    assert_eq!(try_parse_duration("abc"), Err(IntervalError::NotANumber));
    assert_eq!(try_parse_duration("-10"), Err(IntervalError::NotANumber));
    assert_eq!(try_parse_duration(""), Err(IntervalError::NotANumber));
}

#[test]
fn numbers_are_read_as_u64_from_str_reads_them() {
    for text in ["0", "+7", "007", "18446744073709551615", "18446744073709551616", "+", "", " 1", "1 "] {
        assert_eq!(parse_u64(text), text.parse::<u64>().ok(), "{text}");
    }
}

#[test]
fn order_decides_metadata_sort_key() {
    assert_eq!(Order::ByDate.sort_by(), SortBy::TakenTime);
    assert_eq!(Order::Random.sort_by(), SortBy::TakenTime);
    assert_eq!(Order::ByName.sort_by(), SortBy::FileName);
    assert_eq!(SortBy::TakenTime.as_param(), "takentime");
    assert_eq!(SortBy::FileName.as_param(), "filename");
}

#[test]
fn turned_screens_swap_width_and_height() {
    assert_eq!(Rotation::D0.oriented_size((1920, 1080)), (1920, 1080));
    assert_eq!(Rotation::D90.oriented_size((1920, 1080)), (1080, 1920));
    assert_eq!(Rotation::D180.oriented_size((1920, 1080)), (1920, 1080));
    assert_eq!(Rotation::D270.oriented_size((1920, 1080)), (1080, 1920));
}
