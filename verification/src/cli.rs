//! Command line option values and their parsing.

use vstd::prelude::*;

use crate::text::str_eq;

verus! {

/// The slideshow's settings, as given on the command line.
#[derive(Debug, Clone, PartialEq, Eq)]
pub struct Cli {
    /// Link to a publicly shared album on Synology Photos or Immich
    pub share_link: String,
    /// Link protection password if set in the album sharing settings
    pub password: Option<String>,
    /// Photo change interval in seconds (at least 5)
    pub photo_change_interval_secs: u64,
    /// Slideshow ordering
    pub order: Order,
    /// Start at randomly selected photo, then continue according to `order`
    pub random_start: bool,
    /// Transition effect
    pub transition: Transition,
    /// Background fill effect
    pub background: Background,
    /// Rotate display to match screen orientation
    pub rotation: Rotation,
    /// Path to a JPEG file to display during startup, replacing the default splash-screen
    pub splash: Option<String>,
    /// HTTP request timeout in seconds (at least 5)
    pub timeout_seconds: u16,
    /// Requested size of the photo as fetched from the server
    pub source_size: SourceSize,
    /// Disable checking for updates during startup
    pub disable_update_check: bool,
    /// Put the display into standby when the motion sensor sees no one for a minute
    pub motionsensor: bool,
    /// Show the shooting date and location of each photo
    pub display_photo_info: bool,
    /// The photo server, when not to be detected from the share link
    pub backend: Option<Backend>,
}

/// Slideshow ordering
#[derive(Debug, Copy, Clone, PartialEq, Eq, Structural)]
pub enum Order {
    /// by photo shooting date
    ByDate,
    /// by photo file name
    ByName,
    /// randomly
    Random,
}

/// Transition to next photo effect
#[derive(Debug, Copy, Clone, PartialEq, Eq, Structural)]
pub enum Transition {
    /// Crossfade (or cross dissolve)
    Crossfade,
    /// Fade out to black and in to next photo
    FadeToBlack,
    /// Disable transition effect
    Disabled,
}

/// Background fill effect
#[derive(Debug, Copy, Clone, PartialEq, Eq, Structural)]
pub enum Background {
    /// Blur the photo
    Blur,
    /// Disable background (black)
    Black,
}

/// Screen rotation in degrees
#[derive(Debug, Copy, Clone, PartialEq, Eq, Structural)]
pub enum Rotation {
    /// 0°
    D0,
    /// 90°
    D90,
    /// 180°
    D180,
    /// 270°
    D270,
}

/// Requested size of source photo to fetch from Synology Photos
#[derive(Debug, Copy, Clone, PartialEq, Eq, Structural)]
pub enum SourceSize {
    /// small (360x240)
    S,
    /// medium (481x320)
    M,
    /// large (1922x1280)
    L,
}

/// Photo server that hosts the shared album
#[derive(Debug, Copy, Clone, PartialEq, Eq, Structural)]
pub enum Backend {
    Synology,
    Immich,
}

/// Sort key of photo metadata requested from the server
#[derive(Debug, Copy, Clone, PartialEq, Eq, Structural)]
pub enum SortBy {
    TakenTime,
    FileName,
}

/// The values accepted by the `--rotate` option.
pub open spec fn rotation_of_degrees(value: Seq<char>) -> Option<Rotation> {
    if value == "0"@ {
        Some(Rotation::D0)
    } else if value == "90"@ {
        Some(Rotation::D90)
    } else if value == "180"@ {
        Some(Rotation::D180)
    } else if value == "270"@ {
        Some(Rotation::D270)
    } else {
        None
    }
}

pub open spec fn quarter_turns_spec(rotation: Rotation) -> u8 {
    match rotation {
        Rotation::D0 => 0,
        Rotation::D90 => 1,
        Rotation::D180 => 2,
        Rotation::D270 => 3,
    }
}

impl Rotation {
    /// Number of clockwise quarter turns: the angle divided by 90 degrees.
    pub fn quarter_turns(&self) -> (r: u8)
        ensures
            r == quarter_turns_spec(*self),
            r < 4,
    {
        match self {
            Rotation::D0 => 0,
            Rotation::D90 => 1,
            Rotation::D180 => 2,
            Rotation::D270 => 3,
        }
    }

    /// The size of the picture to compose for a screen of `screen_size` turned this way: width
    /// and height trade places for a quarter or three-quarter turn.
    pub fn oriented_size(&self, screen_size: (u32, u32)) -> (r: (u32, u32))
        ensures
            quarter_turns_spec(*self) % 2 == 0 ==> r == screen_size,
            quarter_turns_spec(*self) % 2 == 1 ==> r == (screen_size.1, screen_size.0),
    {
        match self {
            Rotation::D0 | Rotation::D180 => screen_size,
            Rotation::D90 | Rotation::D270 => (screen_size.1, screen_size.0),
        }
    }

    /// Reads a rotation given in degrees: one of "0", "90", "180" and "270".
    pub fn parse_degrees(value: &str) -> (r: Option<Rotation>)
        ensures
            r == rotation_of_degrees(value@),
    {
        proof {
            reveal_strlit("0");
            reveal_strlit("90");
            reveal_strlit("180");
            reveal_strlit("270");
        }
        if str_eq(value, "0") {
            Some(Rotation::D0)
        } else if str_eq(value, "90") {
            Some(Rotation::D90)
        } else if str_eq(value, "180") {
            Some(Rotation::D180)
        } else if str_eq(value, "270") {
            Some(Rotation::D270)
        } else {
            None
        }
    }
}

impl Order {
    /// Sort key of the metadata request for this ordering (random order shuffles photos sorted
    /// by shooting date).
    pub fn sort_by(self) -> (r: SortBy)
        ensures
            r == self.sort_by_spec(),
    {
        match self {
            Order::ByName => SortBy::FileName,
            _ => SortBy::TakenTime,
        }
    }
}

pub open spec fn sort_by_param(sort_by: SortBy) -> Seq<char> {
    match sort_by {
        SortBy::TakenTime => "takentime"@,
        SortBy::FileName => "filename"@,
    }
}

impl SortBy {
    /// Value of the `sort_by` request parameter.
    pub fn as_param(&self) -> (r: &'static str)
        ensures
            r@ == sort_by_param(*self),
    {
        match self {
            SortBy::TakenTime => "takentime",
            SortBy::FileName => "filename",
        }
    }
}

pub open spec fn is_digit(c: char) -> bool {
    '0' <= c && c <= '9'
}

pub open spec fn digit_value(c: char) -> int {
    c as int - '0' as int
}

/// Value of a sequence of decimal digits.
pub open spec fn decimal_value(digits: Seq<char>) -> int
    decreases digits.len(),
{
    if digits.len() == 0 {
        0
    } else {
        decimal_value(digits.drop_last()) * 10 + digit_value(digits.last())
    }
}

/// The digits that `u64::from_str` reads: the text without one leading `+`, if it has more.
pub open spec fn unsigned_digits(text: Seq<char>) -> Seq<char> {
    if text.len() > 1 && text[0] == '+' {
        text.drop_first()
    } else {
        text
    }
}

/// What `u64::from_str` returns: `Some` value when the text is a non-empty run of decimal
/// digits (after an optional `+`) whose value fits in `u64`.
pub open spec fn parse_u64_spec(text: Seq<char>) -> Option<u64> {
    let digits = unsigned_digits(text);
    if digits.len() > 0 && (forall|i: int| 0 <= i < digits.len() ==> is_digit(#[trigger] digits[i]))
        && decimal_value(digits) <= u64::MAX {
        Some(decimal_value(digits) as u64)
    } else {
        None
    }
}

proof fn lemma_decimal_value_nonneg(digits: Seq<char>)
    requires
        forall|i: int| 0 <= i < digits.len() ==> is_digit(#[trigger] digits[i]),
    ensures
        decimal_value(digits) >= 0,
    decreases digits.len(),
{
    if digits.len() > 0 {
        assert(forall|i: int|
            0 <= i < digits.drop_last().len() ==> #[trigger] digits.drop_last()[i] == digits[i]);
        lemma_decimal_value_nonneg(digits.drop_last());
        assert(is_digit(digits[digits.len() - 1]));
    }
}

proof fn lemma_decimal_value_monotone(digits: Seq<char>, k: int)
    requires
        0 <= k <= digits.len(),
        forall|i: int| 0 <= i < digits.len() ==> is_digit(#[trigger] digits[i]),
    ensures
        decimal_value(digits.subrange(0, k)) <= decimal_value(digits),
    decreases digits.len() - k,
{
    if k < digits.len() {
        let s = digits.subrange(0, k + 1);
        assert(s.drop_last() == digits.subrange(0, k));
        assert(forall|i: int| 0 <= i < s.len() ==> #[trigger] s[i] == digits[i]);
        lemma_decimal_value_nonneg(digits.subrange(0, k));
        assert(is_digit(digits[k]));
        lemma_decimal_value_monotone(digits, k + 1);
    } else {
        assert(digits.subrange(0, k) == digits);
    }
}

/// Decimal parsing as `u64::from_str` does it.
pub fn parse_u64(text: &str) -> (r: Option<u64>)
    ensures
        r == parse_u64_spec(text@),
{
    let n = text.unicode_len();
    let start: usize = if n > 1 && text.get_char(0) == '+' {
        1
    } else {
        0
    };
    let ghost digits = unsigned_digits(text@);
    assert(digits == text@.subrange(start as int, n as int));
    if start == n {
        return None;
    }
    let mut value: u64 = 0;
    let mut i: usize = start;
    while i < n
        invariant
            n == text@.len(),
            start <= i <= n,
            digits == text@.subrange(start as int, n as int),
            digits == unsigned_digits(text@),
            forall|j: int| 0 <= j < i - start ==> is_digit(#[trigger] digits[j]),
            value == decimal_value(digits.subrange(0, i - start)),
        decreases n - i,
    {
        let c = text.get_char(i);
        assert(c == digits[i - start]);
        if !('0' <= c && c <= '9') {
            assert(!is_digit(digits[i - start]));
            return None;
        }
        let d: u64 = (c as u32 - '0' as u32) as u64;
        let ghost prefix = digits.subrange(0, i - start + 1);
        assert(prefix.drop_last() == digits.subrange(0, i - start));
        assert(prefix.last() == c);
        if value > (u64::MAX - d) / 10 {
            proof {
                assert(value * 10 + d > u64::MAX);
                assert(decimal_value(prefix) == value * 10 + d);
                assert(forall|j: int| 0 <= j < prefix.len() ==> #[trigger] prefix[j] == digits[j]);
                assert(forall|j: int| 0 <= j < digits.len() ==> digits[j] == text@[start + j]);
                if forall|j: int| 0 <= j < digits.len() ==> is_digit(#[trigger] digits[j]) {
                    lemma_decimal_value_monotone(digits, i - start + 1);
                }
            }
            return None;
        }
        value = value * 10 + d;
        i = i + 1;
    }
    assert(digits.subrange(0, n - start) == digits);
    Some(value)
}

/// Reasons an `--interval` value is refused.
#[derive(Debug, Clone, Copy, PartialEq, Eq, Structural)]
pub enum IntervalError {
    /// not a non-negative decimal number
    NotANumber,
    /// less than 5 seconds
    TooShort,
}

/// Reads the photo change interval in seconds; it must be at least 5.
pub fn try_parse_duration(arg: &str) -> (r: Result<u64, IntervalError>)
    ensures
        r == (match parse_u64_spec(arg@) {
            None => Err(IntervalError::NotANumber),
            Some(seconds) => if seconds < 5 {
                Err(IntervalError::TooShort)
            } else {
                Ok(seconds)
            },
        }),
{
    match parse_u64(arg) {
        None => Err(IntervalError::NotANumber),
        Some(seconds) => if seconds < 5 {
            Err(IntervalError::TooShort)
        } else {
            Ok(seconds)
        },
    }
}

impl Order {
    pub open spec fn sort_by_spec(self) -> SortBy {
        if self == Order::ByName {
            SortBy::FileName
        } else {
            SortBy::TakenTime
        }
    }
}

} // verus!
