use std::cell::RefCell;
use std::ops::Range;

use syno_photo_frame::api_client::syno_client::SynoApiClient;
use syno_photo_frame::cli::{
    Background, Cli, Order, Rotation, SortBy, SourceSize, Transition,
};
use syno_photo_frame::rand::Random;
use syno_photo_frame::slideshow::{
    new_slideshow, photo_removed, reversed_from, NextPhoto, Slideshow, SlideshowError,
};
use syno_photo_frame::test_helpers::{is_get_photo_form, is_list_form};

/// Randomness replaced by a preset sequence of numbers and a preset list of swaps.
#[derive(Debug, Default)]
struct FakeRandom {
    random_sequence: RefCell<Vec<u32>>,
    shuffle_swap_sequence: Vec<(usize, usize)>,
}

impl FakeRandom {
    fn with_random_sequence(self, sequence: Vec<u32>) -> Self {
        self.random_sequence.replace(sequence);
        self.random_sequence.borrow_mut().reverse();
        self
    }

    fn with_shuffle_result(mut self, swaps: Vec<(usize, usize)>) -> Self {
        self.shuffle_swap_sequence = swaps;
        self
    }
}

impl Random for FakeRandom {
    fn random_range(&self, _: Range<u32>) -> u32 {
        self.random_sequence.borrow_mut().pop().expect("should not be empty")
    }

    fn shuffle<T>(&self, slice: &mut [T]) {
        self.shuffle_swap_sequence.iter().for_each(|s| slice.swap(s.0, s.1));
    }
}

fn photos(names: &[&'static str]) -> Vec<&'static str> {
    names.to_vec()
}

fn fetched<P>(next: NextPhoto<P>) -> (P, SourceSize) {
    match next {
        NextPhoto::FetchBytes(photo, size) => (photo, size),
        NextPhoto::FetchMetadata(_) => panic!("expected a photo"),
    }
}

#[test]
fn default_order_starts_with_first_photo_and_keeps_album_order() {
    let mut slideshow: Slideshow<&str, FakeRandom> = Slideshow::new(FakeRandom::default());

    assert!(matches!(slideshow.next_photo(), NextPhoto::FetchMetadata(SortBy::TakenTime)));
    slideshow.initialize(photos(&["photo1", "photo2", "photo3"])).unwrap();

    assert_eq!(fetched(slideshow.next_photo()), ("photo1", SourceSize::L));
    assert_eq!(fetched(slideshow.next_photo()), ("photo2", SourceSize::L));
    assert_eq!(fetched(slideshow.next_photo()), ("photo3", SourceSize::L));
    assert!(slideshow.slideshow_ended());
}

#[test]
fn random_start_begins_at_drawn_photo_only_in_first_pass() {
    let random = FakeRandom::default().with_random_sequence(vec![2]);
    let mut slideshow = Slideshow::new(random).with_random_start(true);

    slideshow.initialize(photos(&["photo1", "photo2", "photo43"])).unwrap();

    assert_eq!(fetched(slideshow.next_photo()), ("photo43", SourceSize::L));
    assert!(slideshow.slideshow_ended());
    assert!(matches!(slideshow.next_photo(), NextPhoto::FetchMetadata(SortBy::TakenTime)));
    slideshow.initialize(photos(&["photo1", "photo2", "photo43"])).unwrap();
    assert_eq!(fetched(slideshow.next_photo()), ("photo1", SourceSize::L));
}

#[test]
fn source_size_is_passed_with_each_photo() {
    for size in [SourceSize::S, SourceSize::M, SourceSize::L] {
        let mut slideshow = Slideshow::new(FakeRandom::default()).with_source_size(size);
        slideshow.initialize(photos(&["photo43"])).unwrap();

        assert_eq!(fetched(slideshow.next_photo()), ("photo43", size));
    }
}

#[test]
fn removed_photo_is_skipped_on_not_found() {
    assert!(photo_removed(404));
    assert!(!photo_removed(200));
    assert!(!photo_removed(500));
}

#[test]
fn random_order_shuffles_display_sequence() {
    let random = FakeRandom::default().with_shuffle_result(vec![(0, 3), (1, 4)]);
    let mut slideshow = Slideshow::new(random).with_ordering(Order::Random);

    assert!(matches!(slideshow.next_photo(), NextPhoto::FetchMetadata(SortBy::TakenTime)));
    slideshow.initialize(photos(&["photo0", "photo1", "photo2", "photo3", "photo4"])).unwrap();

    let mut shown = vec![];
    while !slideshow.slideshow_ended() {
        shown.push(fetched(slideshow.next_photo()).0);
    }
    assert_eq!(shown, vec!["photo1", "photo0", "photo2", "photo4", "photo3"]);
}

#[test]
fn empty_album_is_an_error() {
    let mut slideshow: Slideshow<&str, FakeRandom> = Slideshow::new(FakeRandom::default());

    assert_eq!(slideshow.initialize(vec![]), Err(SlideshowError::AlbumEmpty));
    assert!(slideshow.slideshow_ended());
}

#[test]
fn name_order_fetches_metadata_sorted_by_file_name() {
    let mut slideshow: Slideshow<&str, FakeRandom> =
        Slideshow::new(FakeRandom::default()).with_ordering(Order::ByName);

    assert!(matches!(slideshow.next_photo(), NextPhoto::FetchMetadata(SortBy::FileName)));
}

#[test]
fn slideshow_reinitializes_when_display_sequence_is_empty() {
    let mut slideshow = Slideshow::new(FakeRandom::default());
    slideshow.initialize(photos(&["photo1"])).unwrap();
    assert_eq!(fetched(slideshow.next_photo()), ("photo1", SourceSize::L));

    assert!(matches!(slideshow.next_photo(), NextPhoto::FetchMetadata(SortBy::TakenTime)));
    slideshow.initialize(photos(&["photo1"])).unwrap();
    assert_eq!(fetched(slideshow.next_photo()), ("photo1", SourceSize::L));
}

#[test]
fn slideshow_follows_command_line() {
    let cli = Cli {
        share_link: "http://fake.dsm.addr/aa/sharing/FakeSharingId".to_string(),
        password: None,
        photo_change_interval_secs: 30,
        order: Order::ByName,
        random_start: true,
        transition: Transition::Crossfade,
        background: Background::Blur,
        rotation: Rotation::D0,
        splash: None,
        timeout_seconds: 30,
        source_size: SourceSize::M,
        disable_update_check: false,
        motionsensor: false,
        display_photo_info: false,
        backend: None,
    };
    let random = FakeRandom::default().with_random_sequence(vec![1]);
    let mut slideshow = new_slideshow(&cli, random);

    assert!(matches!(slideshow.next_photo(), NextPhoto::FetchMetadata(SortBy::FileName)));
    slideshow.initialize(photos(&["a", "b", "c"])).unwrap();
    assert_eq!(fetched(slideshow.next_photo()), ("b", SourceSize::M));
}

#[test]
fn pass_begins_at_the_given_photo_and_clears_random_start() {
    let mut slideshow = Slideshow::new(FakeRandom::default()).with_random_start(true);

    slideshow.begin_pass_at(photos(&["a", "b", "c"]), 1);

    assert_eq!(fetched(slideshow.next_photo()).0, "b");
    assert_eq!(fetched(slideshow.next_photo()).0, "c");
    assert!(slideshow.slideshow_ended());
    slideshow.initialize(photos(&["a", "b", "c"])).unwrap();
    assert_eq!(fetched(slideshow.next_photo()).0, "a");
}

#[test]
fn shuffled_pass_is_shown_from_its_end() {
    let mut slideshow = Slideshow::new(FakeRandom::default()).with_ordering(Order::Random);

    slideshow.begin_shuffled_pass(photos(&["a", "b", "c"]));

    assert_eq!(fetched(slideshow.next_photo()).0, "c");
    assert_eq!(fetched(slideshow.next_photo()).0, "b");
    assert_eq!(fetched(slideshow.next_photo()).0, "a");
    assert!(slideshow.slideshow_ended());
}

#[test]
fn reversed_from_keeps_the_photos_from_start_on() {
    assert_eq!(reversed_from(vec![1, 2, 3, 4], 1), vec![4, 3, 2]);
    assert_eq!(reversed_from(vec![1, 2], 2), Vec::<i32>::new());
}

const SHARE_LINK: &str = "http://fake.dsm.addr/aa/sharing/FakeSharingId";

type Photo = (u32, &'static str);

fn pairs(form: &[(String, String)]) -> Vec<(&str, &str)> {
    form.iter().map(|(k, v)| (k.as_str(), v.as_str())).collect()
}

/// Asks the slideshow for its next photo, checks the request the Synology client makes for it,
/// and returns the photo.
fn fetch_next(
    slideshow: &mut Slideshow<Photo, FakeRandom>,
    client: &SynoApiClient<(), ()>,
    expected_size: &str,
) -> Photo {
    let ((id, cache_key), size) = fetched(slideshow.next_photo());
    let query = client.photo_bytes_query(id, cache_key, size);
    assert_eq!(client.api_thumbnail_get_url(), "http://fake.dsm.addr/synofoto/api/v2/p/Thumbnail/get");
    assert!(is_get_photo_form(
        &pairs(&query),
        "FakeSharingId",
        &id.to_string(),
        cache_key,
        expected_size
    ));
    (id, cache_key)
}

/// Checks that the slideshow asks for the album listing and that the Synology client lists it
/// with the expected form, then starts the pass with `photos`.
fn list_album(
    slideshow: &mut Slideshow<Photo, FakeRandom>,
    client: &SynoApiClient<(), ()>,
    photos: Vec<Photo>,
) {
    let sort_by = match slideshow.next_photo() {
        NextPhoto::FetchMetadata(sort_by) => sort_by,
        NextPhoto::FetchBytes(..) => panic!("expected a listing"),
    };
    let form = client.photo_metadata_form(sort_by);
    assert_eq!(client.api_url(), "http://fake.dsm.addr/aa/sharing/webapi/entry.cgi");
    assert_eq!(client.sharing_id(), "FakeSharingId");
    assert!(is_list_form(&pairs(&form)));
    slideshow.initialize(photos).unwrap();
}

#[test]
fn when_default_order_then_get_next_photo_fetches_first_photo() {
    let client = SynoApiClient::build(&(), &(), SHARE_LINK).unwrap();
    let mut slideshow = Slideshow::new(FakeRandom::default());

    list_album(&mut slideshow, &client, vec![(1, "photo1"), (2, "photo2"), (3, "photo3")]);
    let result = fetch_next(&mut slideshow, &client, "xl");

    assert_eq!(result, (1, "photo1"));
    assert_eq!(fetched(slideshow.next_photo()).0, (2, "photo2"));
    assert_eq!(fetched(slideshow.next_photo()).0, (3, "photo3"));
    assert!(slideshow.slideshow_ended());
}

#[test]
fn when_random_start_then_get_next_photo_fetches_random_photo() {
    let client = SynoApiClient::build(&(), &(), SHARE_LINK).unwrap();
    let random = FakeRandom::default().with_random_sequence(vec![2]);
    let mut slideshow = Slideshow::new(random).with_random_start(true);

    list_album(&mut slideshow, &client, vec![(1, "photo1"), (2, "photo2"), (43, "photo43")]);

    assert_eq!(fetch_next(&mut slideshow, &client, "xl"), (43, "photo43"));
}

#[test]
fn when_source_size_specified_then_get_next_photo_fetches_photo_of_specific_size() {
    for (source_size, expected_size_param) in
        [(SourceSize::S, "sm"), (SourceSize::M, "m"), (SourceSize::L, "xl")]
    {
        let client = SynoApiClient::build(&(), &(), SHARE_LINK).unwrap();
        let mut slideshow = Slideshow::new(FakeRandom::default()).with_source_size(source_size);

        list_album(&mut slideshow, &client, vec![(43, "photo43")]);

        assert_eq!(fetch_next(&mut slideshow, &client, expected_size_param), (43, "photo43"));
    }
}

#[test]
fn get_next_photo_advances_to_next_photo() {
    let client = SynoApiClient::build(&(), &(), SHARE_LINK).unwrap();
    let mut slideshow = Slideshow::new(FakeRandom::default());
    slideshow.initialize(vec![(3, "photo3"), (1, "photo1")]).unwrap();

    let result = fetch_next(&mut slideshow, &client, "xl");

    assert_eq!(result, (3, "photo3"));
    assert_eq!(fetched(slideshow.next_photo()).0, (1, "photo1"));
    assert!(slideshow.slideshow_ended());
}

#[test]
fn when_random_order_then_photo_display_sequence_is_shuffled() {
    let client = SynoApiClient::build(&(), &(), SHARE_LINK).unwrap();
    let random = FakeRandom::default().with_shuffle_result(vec![
        (0, 3), /* 3 1 2 0 4 */
        (1, 4), /* 3 4 2 0 1 */
    ]);
    let mut slideshow = Slideshow::new(random).with_ordering(Order::Random);

    list_album(
        &mut slideshow,
        &client,
        vec![(0, "photo0"), (1, "photo1"), (2, "photo2"), (3, "photo3"), (4, "photo4")],
    );
    assert_eq!(fetch_next(&mut slideshow, &client, "xl"), (1, "photo1"));

    let mut remaining = vec![];
    while !slideshow.slideshow_ended() {
        remaining.push(fetched(slideshow.next_photo()).0);
    }
    assert_eq!(remaining, vec![(0, "photo0"), (2, "photo2"), (4, "photo4"), (3, "photo3")]);
}

#[test]
fn get_next_photo_reinitializes_when_display_sequence_is_empty() {
    let client = SynoApiClient::build(&(), &(), SHARE_LINK).unwrap();
    let mut slideshow = Slideshow::new(FakeRandom::default());

    list_album(&mut slideshow, &client, vec![(1, "photo1"), (1, "photo1")]);

    assert_eq!(fetch_next(&mut slideshow, &client, "xl"), (1, "photo1"));
    assert_eq!(fetched(slideshow.next_photo()).0, (1, "photo1"));
    assert!(slideshow.slideshow_ended());
}

#[test]
fn only_date_or_name_order_draws_a_random_start() {
    let by_date = Slideshow::<&str, FakeRandom>::new(FakeRandom::default()).with_random_start(true);
    let random = Slideshow::<&str, FakeRandom>::new(FakeRandom::default())
        .with_random_start(true)
        .with_ordering(Order::Random);
    let plain = Slideshow::<&str, FakeRandom>::new(FakeRandom::default());

    assert!(by_date.starts_at_random_photo());
    assert!(!random.starts_at_random_photo());
    assert!(!plain.starts_at_random_photo());
}

#[test]
fn get_next_photo_skips_the_photo_when_cached_dto_is_not_found_because_photo_was_removed_from_album(
) {
    let client = SynoApiClient::build(&(), &(), SHARE_LINK).unwrap();
    let mut slideshow = Slideshow::new(FakeRandom::default());
    slideshow
        .initialize(vec![(1, "missing_photo"), (2, "photo2"), (3, "photo3")])
        .unwrap();

    /* The server answers 404 for the removed photo, and the photo's bytes for the others. */
    let result = loop {
        let photo = fetch_next(&mut slideshow, &client, "xl");
        let status = if photo == (1, "missing_photo") { 404 } else { 200 };
        if !photo_removed(status) {
            break photo;
        }
    };

    assert_eq!(result, (2, "photo2"));
    assert_eq!(fetched(slideshow.next_photo()).0, (3, "photo3"));
    assert!(slideshow.slideshow_ended());
}
