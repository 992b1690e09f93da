//! Slideshow sequencing: which photo comes next, and when the album's metadata is fetched again.

use vstd::prelude::*;

use crate::cli::{Cli, Order, SortBy, SourceSize};
use crate::rand::Random;

verus! {

/// What the slideshow needs next from the photo server.
pub enum NextPhoto<P> {
    /// The display sequence is exhausted: fetch the album's photo metadata sorted this way
    /// and hand it to [`Slideshow::initialize`].
    FetchMetadata(SortBy),
    /// Fetch the bytes of this photo, in this size.
    FetchBytes(P, SourceSize),
}

/// Why the slideshow could not be (re)started.
#[derive(Debug, Clone, Copy, PartialEq, Eq, Structural)]
pub enum SlideshowError {
    /// The album holds no photos.
    AlbumEmpty,
}

/// Holds the slideshow state.
pub struct Slideshow<P, R> {
    random: R,
    /// Album photos' metadata in reverse order (so they can be popped off easily)
    photo_display_sequence: Vec<P>,
    order: Order,
    random_start: bool,
    source_size: SourceSize,
}

/// The photos in the order in which they remain to be shown, for an album whose photos are
/// `photos`, started at index `start`.
pub open spec fn remaining_in_album_order<P>(photos: Seq<P>, start: int) -> Seq<P> {
    photos.subrange(start, photos.len() as int).reverse()
}

impl<P, R: Random> Slideshow<P, R> {
    /// Photos still to be shown, last to be shown first.
    pub closed spec fn display_sequence(&self) -> Seq<P> {
        self.photo_display_sequence@
    }

    /// The random source the slideshow draws from.
    pub closed spec fn random_source(&self) -> R {
        self.random
    }

    pub closed spec fn order(&self) -> Order {
        self.order
    }

    pub closed spec fn random_start(&self) -> bool {
        self.random_start
    }

    pub closed spec fn source_size(&self) -> SourceSize {
        self.source_size
    }

    /// The next pass begins at a randomly drawn photo: random start is set and the order is not
    /// random.
    pub open spec fn draws_start(&self) -> bool {
        self.random_start() && self.order() != Order::Random
    }

    /// Whether the next pass begins at a randomly drawn photo (the album's size must then fit
    /// in a `u32`).
    pub fn starts_at_random_photo(&self) -> (r: bool)
        ensures
            r == self.draws_start(),
    {
        match self.order {
            Order::Random => false,
            _ => self.random_start,
        }
    }

    /// A slideshow in shooting-date order, without random start, fetching large photos.
    pub fn new(random: R) -> (r: Self)
        ensures
            r.display_sequence().len() == 0,
            r.order() == Order::ByDate,
            !r.random_start(),
            r.source_size() == SourceSize::L,
    {
        Slideshow {
            random,
            photo_display_sequence: Vec::new(),
            order: Order::ByDate,
            random_start: false,
            source_size: SourceSize::L,
        }
    }

    pub fn with_ordering(self, order: Order) -> (r: Self)
        ensures
            r.order() == order,
            r.display_sequence() == self.display_sequence(),
            r.random_start() == self.random_start(),
            r.source_size() == self.source_size(),
    {
        Slideshow { order, ..self }
    }

    pub fn with_random_start(self, random_start: bool) -> (r: Self)
        ensures
            r.random_start() == random_start,
            r.display_sequence() == self.display_sequence(),
            r.order() == self.order(),
            r.source_size() == self.source_size(),
    {
        Slideshow { random_start, ..self }
    }

    pub fn with_source_size(self, size: SourceSize) -> (r: Self)
        ensures
            r.source_size() == size,
            r.display_sequence() == self.display_sequence(),
            r.order() == self.order(),
            r.random_start() == self.random_start(),
    {
        Slideshow { source_size: size, ..self }
    }

    /// Whether every photo of the current pass has been shown.
    pub fn slideshow_ended(&self) -> (r: bool)
        ensures
            r == (self.display_sequence().len() == 0),
    {
        self.photo_display_sequence.len() == 0
    }

    /// Takes the next photo off the display sequence, or asks for the album's metadata when
    /// the sequence is exhausted.
    pub fn next_photo(&mut self) -> (r: NextPhoto<P>)
        ensures
            final(self).order() == old(self).order(),
            final(self).random_start() == old(self).random_start(),
            final(self).source_size() == old(self).source_size(),
            old(self).display_sequence().len() == 0 ==> {
                &&& r == NextPhoto::<P>::FetchMetadata(old(self).order().sort_by_spec())
                &&& final(self).display_sequence() == old(self).display_sequence()
            },
            old(self).display_sequence().len() > 0 ==> {
                &&& r == NextPhoto::FetchBytes(
                    old(self).display_sequence().last(),
                    old(self).source_size(),
                )
                &&& final(self).display_sequence() == old(self).display_sequence().drop_last()
            },
    {
        match self.photo_display_sequence.pop() {
            None => NextPhoto::FetchMetadata(self.order.sort_by()),
            Some(photo) => NextPhoto::FetchBytes(photo, self.source_size),
        }
    }

    /// Starts a new pass over the album's photos (given in the server's sort order). In
    /// shooting-date or file-name order the photos are shown in the given order; with random
    /// start the pass begins at a photo drawn from the random source over all the album's
    /// indices, and only the first pass does so; in random order the pass shows the photos in
    /// the order the random source shuffled them into.
    pub fn initialize(&mut self, photos: Vec<P>) -> (r: Result<(), SlideshowError>)
        requires
            old(self).display_sequence().len() == 0,
            old(self).draws_start() ==> photos@.len() <= u32::MAX,
        ensures
            final(self).order() == old(self).order(),
            final(self).source_size() == old(self).source_size(),
            photos@.len() == 0 ==> r == Err::<(), SlideshowError>(SlideshowError::AlbumEmpty)
                && *final(self) == *old(self),
            photos@.len() > 0 ==> r is Ok && match old(self).order() {
                Order::Random => {
                    &&& final(self).display_sequence().to_multiset() == photos@.to_multiset()

                    &&& final(self).random_start() == old(self).random_start()
                },
                _ => {
                    &&& !final(self).random_start()
                    &&& old(self).random_start() ==> exists|start: u32|
                        #[trigger] call_ensures(
                            R::random_range,
                            (&old(self).random_source(), 0..(photos@.len() as u32)),
                            start,
                        ) && start < photos@.len() && final(self).display_sequence()
                            == remaining_in_album_order(photos@, start as int)
                    &&& !old(self).random_start() ==> final(self).display_sequence()
                        == remaining_in_album_order(photos@, 0)
                },
            },
    {
        let item_count = photos.len();
        if item_count == 0 {
            return Err(SlideshowError::AlbumEmpty);
        }
        match self.order {
            Order::Random => {
                let mut sequence = photos;
                self.random.shuffle(sequence.as_mut_slice());
                self.begin_shuffled_pass(sequence);
            },
            _ => {
                let start: usize = if self.random_start {
                    self.random.random_range(0..item_count as u32) as usize
                } else {
                    0
                };
                self.begin_pass_at(photos, start);
            },
        }
        Ok(())
    }

    /// Starts a pass in shooting-date or file-name order at the album's photo `start` (0 without
    /// random start; the drawn index with it): the photos from there on are shown in album order,
    /// and random start, having been used, is cleared.
    pub fn begin_pass_at(&mut self, photos: Vec<P>, start: usize)
        requires
            old(self).display_sequence().len() == 0,
            start < photos@.len(),
        ensures
            final(self).display_sequence() == remaining_in_album_order(photos@, start as int),
            !final(self).random_start(),
            final(self).random_source() == old(self).random_source(),
            final(self).order() == old(self).order(),
            final(self).source_size() == old(self).source_size(),
    {
        self.photo_display_sequence = reversed_from(photos, start);
        self.random_start = false;
    }

    /// Starts a pass in random order with the album's photos as the random source shuffled
    /// them: they are shown from the end of `shuffled` to its start.
    pub fn begin_shuffled_pass(&mut self, shuffled: Vec<P>)
        requires
            old(self).display_sequence().len() == 0,
        ensures
            final(self).display_sequence() == shuffled@,
            final(self).random_start() == old(self).random_start(),
            final(self).random_source() == old(self).random_source(),
            final(self).order() == old(self).order(),
            final(self).source_size() == old(self).source_size(),
    {
        self.photo_display_sequence = shuffled;
    }
}

/// A slideshow set up as the command line asks: its order, random start and photo size.
pub fn new_slideshow<P, R: Random>(cli: &Cli, random: R) -> (r: Slideshow<P, R>)
    ensures
        r.display_sequence().len() == 0,
        r.order() == cli.order,
        r.random_start() == cli.random_start,
        r.source_size() == cli.source_size,
{
    Slideshow::new(random).with_ordering(cli.order).with_random_start(cli.random_start).with_source_size(
        cli.source_size,
    )
}

/// The elements of `photos` from index `start` on, in reverse order.
pub fn reversed_from<P>(photos: Vec<P>, start: usize) -> (r: Vec<P>)
    requires
        start <= photos@.len(),
    ensures
        r@ == remaining_in_album_order(photos@, start as int),
{
    let ghost given = photos@;
    let ghost n = photos@.len() as int;
    let mut rest = photos;
    let mut reversed: Vec<P> = Vec::new();
    while rest.len() > start
        invariant
            start <= rest@.len() <= n,
            n == given.len(),
            rest@ == given.subrange(0, rest@.len() as int),
            reversed@.len() == n - rest@.len(),
            forall|i: int| 0 <= i < reversed@.len() ==> reversed@[i] == given[n - 1 - i],
        decreases rest@.len(),
    {
        let ghost before = rest@;
        let photo = rest.pop().unwrap();
        assert(photo == given[rest@.len() as int]);
        reversed.push(photo);
        assert(rest@ =~= given.subrange(0, rest@.len() as int));
    }
    assert(reversed@ =~= remaining_in_album_order(given, start as int));
    reversed
}

/// A photo has been removed from the album since its metadata was fetched: its bytes are
/// answered with HTTP 404, and the slideshow skips to the next photo.
pub fn photo_removed(http_status: u16) -> (r: bool)
    ensures
        r == (http_status == 404),
{
    http_status == 404
}

/// In shooting-date or file-name order, the photo shown `i`-th after a pass starts at index
/// `start` is the album's photo `start + i`: popping the display sequence walks the album in
/// its order.
pub proof fn lemma_pass_follows_album_order<P>(photos: Seq<P>, start: int, i: int)
    requires
        0 <= start <= start + i < photos.len(),
    ensures
        ({
            let sequence = remaining_in_album_order(photos, start);
            sequence.subrange(0, sequence.len() - i).last() == photos[start + i]
        }),
{
}

} // verus!
