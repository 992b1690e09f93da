//! Photo metadata shown in the info box: shooting date (formatted for the locale) and location.

use vstd::prelude::*;
use vstd::string::*;

verus! {

/// The names that `chrono::Locale::from_str` accepts (the locale table of pure-rust-locales).
pub uninterp spec fn known_locale(id: Seq<char>) -> bool;

/// Whether `chrono::DateTime::from_timestamp(secs, 0)` gives a date (chrono's year range).
pub uninterp spec fn representable_timestamp(secs: i64) -> bool;

/// Whether `chrono` can format dates in the named locale's date representation: its `%x` pattern
/// holds no specifier that chrono rejects (chrono has no `%O` and `%E` modifiers, which a few
/// locales use).
pub uninterp spec fn supported_date_format(locale: Seq<char>) -> bool;

/// `chrono`'s `%x` (locale's date representation) of the UTC date at `secs` seconds after the
/// epoch, in the named locale.
pub uninterp spec fn localized_date(secs: i64, locale: Seq<char>) -> Seq<char>;

/// Calls `chrono::Locale::from_str`: whether the name is a known locale. The table holds
/// "POSIX".
#[verifier::external_body]
fn locale_is_known(id: &str) -> (r: bool)
    ensures
        r == known_locale(id@),
        id@ == "POSIX"@ ==> r,
{
    <chrono::Locale as core::str::FromStr>::from_str(id).is_ok()
}

/// Calls `chrono::DateTime::from_timestamp(secs, 0)`: whether the instant has a date. The
/// epoch has one.
#[verifier::external_body]
fn timestamp_is_representable(secs: i64) -> (r: bool)
    ensures
        r == representable_timestamp(secs),
        secs == 0 ==> r,
{
    chrono::DateTime::from_timestamp(secs, 0).is_some()
}

/// Calls `StrftimeItems::new_with_locale("%x", locale).parse()`, the locale converted from its
/// name (which succeeds under the precondition): whether the locale's date pattern parses
/// without an error item. POSIX's pattern, `%m/%d/%y`, does.
#[verifier::external_body]
fn date_format_is_supported(locale_id: &str) -> (r: bool)
    requires
        known_locale(locale_id@),
    ensures
        r == supported_date_format(locale_id@),
        locale_id@ == "POSIX"@ ==> r,
{
    let locale = match <chrono::Locale as core::str::FromStr>::from_str(locale_id) {
        Ok(locale) => locale,
        Err(_) => chrono::Locale::POSIX,
    };
    chrono::format::StrftimeItems::new_with_locale("%x", locale).parse().is_ok()
}

/// Calls `format_localized("%x", locale)` on the UTC date at `secs`, the locale and the date
/// converted from their plain forms (both conversions succeed under the precondition). The
/// formatting goes through `to_string`, which panics where the pattern holds an error item: the
/// precondition leaves those locales out.
#[verifier::external_body]
fn format_localized_date(secs: i64, locale_id: &str) -> (r: String)
    requires
        known_locale(locale_id@),
        supported_date_format(locale_id@),
        representable_timestamp(secs),
    ensures
        r@ == localized_date(secs, locale_id@),
{
    let locale = match <chrono::Locale as core::str::FromStr>::from_str(locale_id) {
        Ok(locale) => locale,
        Err(_) => chrono::Locale::POSIX,
    };
    match chrono::DateTime::from_timestamp(secs, 0) {
        Some(date) => date.format_localized("%x", locale).to_string(),
        None => chrono::DateTime::<chrono::Utc>::default().format_localized("%x", locale).to_string(),
    }
}

/// Where a photo was taken.
#[derive(Debug, Clone, PartialEq, Eq)]
pub struct Location {
    pub area: Option<String>,
    pub country: Option<String>,
}

pub open spec fn opt_view(o: Option<String>) -> Option<Seq<char>> {
    match o {
        Some(s) => Some(s@),
        None => None,
    }
}

/// How a location reads: "area, country", or whichever of the two is known, or nothing.
pub open spec fn location_text(area: Option<Seq<char>>, country: Option<Seq<char>>) -> Seq<char> {
    match (area, country) {
        (Some(a), Some(c)) => a + ", "@ + c,
        (Some(a), None) => a,
        (None, Some(c)) => c,
        (None, None) => Seq::empty(),
    }
}

impl Location {
    pub fn new(area: Option<String>, country: Option<String>) -> (r: Self)
        ensures
            r.area == area,
            r.country == country,
    {
        Self { area, country }
    }

    /// Neither area nor country.
    pub fn unknown() -> (r: Self)
        ensures
            r.area is None,
            r.country is None,
    {
        Self { area: None, country: None }
    }

    /// The location as displayed.
    pub fn to_display_string(&self) -> (r: String)
        ensures
            r@ == location_text(opt_view(self.area), opt_view(self.country)),
    {
        proof {
            reveal_strlit(", ");
        }
        match (&self.area, &self.country) {
            (Some(area), Some(country)) => area.clone().concat(", ").concat(country.as_str()),
            (Some(area), None) => area.clone(),
            (None, Some(country)) => country.clone(),
            (None, None) => String::new(),
        }
    }
}

/// The address fields of a Synology Photos item that locate it.
#[derive(Debug, Clone, PartialEq, Eq, Default)]
pub struct Address {
    pub country: String,
    pub state: String,
    pub county: String,
    pub city: String,
    pub town: String,
    pub village: String,
}

/// The most specific non-empty of village, town, city, county and state.
pub open spec fn most_specific_area(a: Address) -> Option<Seq<char>> {
    if a.village@.len() > 0 {
        Some(a.village@)
    } else if a.town@.len() > 0 {
        Some(a.town@)
    } else if a.city@.len() > 0 {
        Some(a.city@)
    } else if a.county@.len() > 0 {
        Some(a.county@)
    } else if a.state@.len() > 0 {
        Some(a.state@)
    } else {
        None
    }
}

fn non_empty(s: &String) -> (r: Option<String>)
    ensures
        r == (if s@.len() > 0 {
            Some(*s)
        } else {
            None::<String>
        }),
{
    if s.as_str().is_empty() {
        None
    } else {
        Some(s.clone())
    }
}

/// Location of a Synology Photos item: the most specific non-empty place name as the area,
/// and the country when it is not empty. An item without address has an unknown location.
pub fn synology_location(address: Option<&Address>) -> (r: Location)
    ensures
        match address {
            None => r.area is None && r.country is None,
            Some(a) => {
                &&& opt_view(r.area) == most_specific_area(*a)
                &&& opt_view(r.country) == (if a.country@.len() > 0 {
                    Some(a.country@)
                } else {
                    None
                })
            },
        },
{
    match address {
        None => Location::unknown(),
        Some(a) => {
            let area = if !a.village.as_str().is_empty() {
                Some(a.village.clone())
            } else if !a.town.as_str().is_empty() {
                Some(a.town.clone())
            } else if !a.city.as_str().is_empty() {
                Some(a.city.clone())
            } else if !a.county.as_str().is_empty() {
                Some(a.county.clone())
            } else if !a.state.as_str().is_empty() {
                Some(a.state.clone())
            } else {
                None
            };
            Location::new(area, non_empty(&a.country))
        },
    }
}

/// The text of the info box: the date, then, when any part of the location is known, a space
/// and the location.
pub open spec fn info_text(date: Seq<char>, area: Option<Seq<char>>, country: Option<Seq<char>>) -> Seq<char> {
    if area is None && country is None {
        date
    } else {
        date + " "@ + location_text(area, country)
    }
}

/// Date of a Synology Photos item: its time in seconds since the epoch, or the epoch when the
/// time does not fit an `i64` or is out of chrono's range.
pub fn photo_timestamp(time: u64) -> (r: i64)
    ensures
        r == (if time <= i64::MAX && representable_timestamp(time as i64) {
            time as i64
        } else {
            0
        }),
        representable_timestamp(r),
{
    let zero_ok = timestamp_is_representable(0);
    if time <= i64::MAX as u64 && timestamp_is_representable(time as i64) {
        time as i64
    } else {
        0
    }
}

/// The info box text for a photo taken at `secs` at `location`, with the date in the format of
/// `locale_id`.
pub fn format_info_text(secs: i64, location: &Location, locale_id: &str) -> (r: String)
    requires
        known_locale(locale_id@),
        supported_date_format(locale_id@),
        representable_timestamp(secs),
    ensures
        r@ == info_text(
            localized_date(secs, locale_id@),
            opt_view(location.area),
            opt_view(location.country),
        ),
{
    proof {
        reveal_strlit(" ");
    }
    let date = format_localized_date(secs, locale_id);
    if location.area.is_none() && location.country.is_none() {
        date
    } else {
        date.concat(" ").concat(location.to_display_string().as_str())
    }
}

/// The locale name `chrono` is asked to use: the known locale named by the text before the first
/// `.` of the chosen value, else "POSIX".
pub open spec fn resolved_locale(value: Option<Seq<char>>) -> Seq<char> {
    match value {
        Some(v) => if known_locale(locale_name(v)) {
            locale_name(v)
        } else {
            "POSIX"@
        },
        None => "POSIX"@,
    }
}

/// The part of a locale value before the first `.` (the codeset is dropped), or all of it.
pub open spec fn locale_name(v: Seq<char>) -> Seq<char> {
    if exists|i: int| 0 <= i < v.len() && v[i] == '.' {
        v.subrange(0, choose_first_dot(v))
    } else {
        v
    }
}

/// Index of the first `.` in `v`.
pub open spec fn choose_first_dot(v: Seq<char>) -> int {
    choose|i: int| 0 <= i < v.len() && v[i] == '.' && forall|k: int| 0 <= k < i ==> v[k] != '.'
}

proof fn lemma_first_dot(v: Seq<char>, i: int)
    requires
        0 <= i < v.len(),
        v[i] == '.',
        forall|k: int| 0 <= k < i ==> v[k] != '.',
    ensures
        locale_name(v) == v.subrange(0, i),
{
    let j = choose_first_dot(v);
    assert(0 <= j < v.len() && v[j] == '.' && forall|k: int| 0 <= k < j ==> v[k] != '.');
    if j < i {
        assert(v[j] != '.');
    }
    if i < j {
        assert(v[i] != '.');
    }
}

/// `locale_name`, computed.
fn locale_name_of(value: &str) -> (r: String)
    ensures
        r@ == locale_name(value@),
{
    let n = value.unicode_len();
    let mut i: usize = 0;
    while i < n
        invariant
            n == value@.len(),
            i <= n,
            forall|k: int| 0 <= k < i ==> value@[k] != '.',
        decreases n - i,
    {
        if value.get_char(i) == '.' {
            proof {
                lemma_first_dot(value@, i as int);
            }
            return value.substring_char(0, i).to_owned();
        }
        i = i + 1;
    }
    value.to_owned()
}

/// Chooses the locale for date formatting from the values of `LC_ALL`, `LC_TIME` and `LANG`
/// (`None` where unset), in decreasing priority: the first set variable decides; when its
/// locale is unknown, or none is set, dates are formatted the POSIX way.
pub fn locale_from_env(lc_all: Option<String>, lc_time: Option<String>, lang: Option<String>) -> (r:
    String)
    ensures
        r@ == resolved_locale(
            match lc_all {
                Some(v) => Some(v@),
                None => match lc_time {
                    Some(v) => Some(v@),
                    None => opt_view(lang),
                },
            },
        ),
        known_locale(r@),
{
    proof {
        reveal_strlit("POSIX");
    }
    let chosen = match lc_all {
        Some(v) => Some(v),
        None => match lc_time {
            Some(v) => Some(v),
            None => lang,
        },
    };
    let posix_known = locale_is_known("POSIX");
    match chosen {
        Some(v) => {
            let name = locale_name_of(v.as_str());
            if locale_is_known(name.as_str()) {
                name
            } else {
                "POSIX".to_owned()
            }
        },
        None => "POSIX".to_owned(),
    }
}

/// The locale dates are formatted in: the named one when chrono knows it and can format its
/// dates, else POSIX.
pub open spec fn formatting_locale(locale_id: Seq<char>) -> Seq<char> {
    if known_locale(locale_id) && supported_date_format(locale_id) {
        locale_id
    } else {
        "POSIX"@
    }
}

/// The info box text for a photo taken at `secs` (seconds since the epoch; the epoch when out of
/// chrono's range) at `location`, the date formatted for `locale_id` (POSIX when chrono does not
/// know the name or cannot format its dates).
pub fn localized_info(secs: i64, location: &Location, locale_id: &str) -> (r: String)
    ensures
        r@ == info_text(
            localized_date(
                if representable_timestamp(secs) {
                    secs
                } else {
                    0
                },
                formatting_locale(locale_id@),
            ),
            opt_view(location.area),
            opt_view(location.country),
        ),
{
    proof {
        reveal_strlit("POSIX");
    }
    let zero_ok = timestamp_is_representable(0);
    let secs = if timestamp_is_representable(secs) {
        secs
    } else {
        0
    };
    let posix_known = locale_is_known("POSIX");
    let posix_supported = date_format_is_supported("POSIX");
    if locale_is_known(locale_id) && date_format_is_supported(locale_id) {
        format_info_text(secs, location, locale_id)
    } else {
        format_info_text(secs, location, "POSIX")
    }
}

/// The info box text for a Synology Photos item taken at `time` (seconds since the epoch) at
/// `location`, the date formatted for `locale_id` (POSIX when chrono does not know the name or
/// cannot format its dates).
pub fn localized_photo_info(time: u64, location: &Location, locale_id: &str) -> (r: String)
    ensures
        r@ == info_text(
            localized_date(
                if time <= i64::MAX && representable_timestamp(time as i64) {
                    time as i64
                } else {
                    0
                },
                formatting_locale(locale_id@),
            ),
            opt_view(location.area),
            opt_view(location.country),
        ),
{
    localized_info(photo_timestamp(time), location, locale_id)
}

} // verus!
