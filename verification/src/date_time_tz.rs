//! A timestamp that pairs an absolute instant with an optional named timezone.
//!
//! The string form is the RFC 3339 rendering of the instant in UTC at second
//! precision with a trailing `Z`, followed by a space and the IANA zone name
//! when the value carries a zone other than UTC itself:
//! `2019-06-15T19:00:00Z US/Arizona`.  The parser accepts that form, a bare
//! `...Z` form, and a `...+HH:MM` offset form; the latter two yield a
//! UTC-zoned value.  Ordering and equality compare the instant alone: the
//! zone name is kept for display and round-tripping only.

use vstd::prelude::*;
use vstd::string::StrSliceExecFns;
use vstd::string::StringExecFns;

use crate::text::{eq_str, find_char, find_char_str, lemma_find_char};

verus! {

/// Earliest instant (in seconds relative to the Unix epoch) a [`DateTimeTz`]
/// can hold: the first second of year 0.  The RFC 3339 grammar carries
/// exactly four year digits, so only instants of years 0 through 9999
/// render to strings that parse back.
pub const MIN_INSTANT: i64 = -62_167_219_200;

/// Latest instant a [`DateTimeTz`] can hold: the last second of year 9999.
pub const MAX_INSTANT: i64 = 253_402_300_799;

pub open spec fn instant_in_range(t: i64) -> bool {
    MIN_INSTANT <= t <= MAX_INSTANT
}

/// The RFC 3339 rendering of an in-range instant, in UTC, at second
/// precision, with a trailing `Z`.
pub uninterp spec fn rfc3339_utc(t: i64) -> Seq<char>;

/// The instant, in whole seconds, denoted by an RFC 3339 string, or `None`
/// when the string is not a valid RFC 3339 date-time.
pub uninterp spec fn rfc3339_parse_spec(s: Seq<char>) -> Option<i64>;

/// Whether a string is a zone name of the IANA tz database.
pub uninterp spec fn is_tz_name(s: Seq<char>) -> bool;

/// The distinguished zone name whose values are written without a suffix.
pub open spec fn utc_zone_name() -> Seq<char> {
    "Etc/UTC"@
}

/// Relies on chrono's `DateTime::from_timestamp` and `to_rfc3339_opts`
/// (second precision, `Z` suffix): formatting an in-range instant in UTC is
/// a function of the instant alone.  `from_timestamp` accepts far more than
/// the years 0 through 9999 that the range here allows; within them the
/// rendering carries a four-digit year, `YYYY-MM-DDTHH:MM:SSZ`, which
/// `parse_from_rfc3339` reads back to the same instant, and which contains
/// neither space nor newline.
#[verifier::external_body]
fn format_instant_utc(t: i64) -> (r: String)
    requires
        instant_in_range(t),
    ensures
        r@ == rfc3339_utc(t),
        rfc3339_parse_spec(r@) == Some(t),
        r@.len() > 0,
        forall|i: int| 0 <= i < r@.len() ==> r@[i] != ' ' && r@[i] != '\n',
{
    match chrono::DateTime::from_timestamp(t, 0) {
        Some(dt) => dt.to_rfc3339_opts(chrono::SecondsFormat::Secs, true),
        None => String::new(),
    }
}

/// Relies on chrono's `DateTime::parse_from_rfc3339`: parsing is a function
/// of the input alone; the instant in whole seconds is its `timestamp()`.
#[verifier::external_body]
fn parse_rfc3339(s: &str) -> (r: Option<i64>)
    ensures
        r == rfc3339_parse_spec(s@),
{
    match chrono::DateTime::parse_from_rfc3339(s) {
        Ok(dt) => Some(dt.timestamp()),
        Err(_) => None,
    }
}

/// Relies on chrono-tz's `Tz::from_str`, an exact table lookup of the IANA
/// zone names; every name in that table is non-empty and contains neither
/// space nor newline.
#[verifier::external_body]
fn zone_name_exists(s: &str) -> (r: bool)
    ensures
        r == is_tz_name(s@),
        r ==> s@.len() > 0 && forall|i: int| 0 <= i < s@.len() ==> s@[i] != ' ' && s@[i] != '\n',
{
    s.parse::<chrono_tz::Tz>().is_ok()
}

/// An absolute instant plus an optional IANA zone name.  The zone is `None`
/// exactly for the distinguished UTC zone, whose values are written without
/// a zone suffix.
#[derive(Debug)]
pub struct DateTimeTz {
    instant: i64,
    zone: Option<String>,
}

/// Result of parsing a timestamp string: the instant and the zone view, or
/// `None` when the string is rejected.  Mirrors [`DateTimeTz::from_str`]:
/// with no space the whole string must be RFC 3339; with exactly one space
/// the non-empty tail must name a zone; a lone trailing space is dropped;
/// with more spaces everything after the first is ignored and the head
/// must be RFC 3339.
pub open spec fn from_str_model(s: Seq<char>) -> Option<(i64, Option<Seq<char>>)> {
    let sp = find_char(s, ' ');
    if sp == -1 {
        parse_utc_model(s)
    } else {
        let head = s.subrange(0, sp);
        let rest = s.subrange(sp + 1, s.len() as int);
        if rest.len() == 0 {
            parse_utc_model(head)
        } else if find_char(rest, ' ') == -1 {
            if is_tz_name(rest) {
                match rfc3339_parse_spec(head) {
                    Some(t) => if instant_in_range(t) {
                        Some((t, if rest == utc_zone_name() { None } else { Some(rest) }))
                    } else {
                        None
                    },
                    None => None,
                }
            } else {
                None
            }
        } else {
            parse_utc_model(head)
        }
    }
}

pub open spec fn parse_utc_model(s: Seq<char>) -> Option<(i64, Option<Seq<char>>)> {
    match rfc3339_parse_spec(s) {
        Some(t) => if instant_in_range(t) {
            Some((t, None))
        } else {
            None
        },
        None => None,
    }
}

impl DateTimeTz {
    #[verifier::type_invariant]
    spec fn inv(self) -> bool {
        &&& instant_in_range(self.instant)
        &&& match self.zone {
            Some(z) => is_tz_name(z@) && z@ != utc_zone_name() && z@.len() > 0 && forall|i: int|
                0 <= i < z@.len() ==> z@[i] != ' ' && z@[i] != '\n',
            None => true,
        }
    }

    /// The absolute instant, in seconds relative to the Unix epoch.
    pub closed spec fn inst(self) -> i64 {
        self.instant
    }

    /// The zone name carried for display, or `None` for UTC.
    pub closed spec fn zone_view(self) -> Option<Seq<char>> {
        match self.zone {
            Some(z) => Some(z@),
            None => None,
        }
    }

    /// A UTC-zoned value of the given instant; `None` when the instant is
    /// out of range.
    pub fn utc(instant: i64) -> (r: Option<DateTimeTz>)
        ensures
            match r {
                Some(d) => instant_in_range(instant) && d.inst() == instant && d.zone_view() is None,
                None => !instant_in_range(instant),
            },
    {
        if MIN_INSTANT <= instant && instant <= MAX_INSTANT {
            Some(DateTimeTz { instant, zone: None })
        } else {
            None
        }
    }

    /// A value of the given instant carrying the given zone name; `None`
    /// when the instant is out of range or the name is not in the tz
    /// database.  Naming the distinguished UTC zone yields the same value as
    /// [`DateTimeTz::utc`].
    pub fn with_zone(instant: i64, zone: &str) -> (r: Option<DateTimeTz>)
        ensures
            match r {
                Some(d) => instant_in_range(instant) && is_tz_name(zone@) && d.inst() == instant
                    && d.zone_view() == (if zone@ == utc_zone_name() {
                    None::<Seq<char>>
                } else {
                    Some(zone@)
                }),
                None => !instant_in_range(instant) || !is_tz_name(zone@),
            },
    {
        if instant < MIN_INSTANT || instant > MAX_INSTANT {
            return None;
        }
        if !zone_name_exists(zone) {
            return None;
        }
        if eq_str(zone, "Etc/UTC") {
            Some(DateTimeTz { instant, zone: None })
        } else {
            Some(DateTimeTz { instant, zone: Some(zone.to_owned()) })
        }
    }

    /// The absolute instant, in seconds relative to the Unix epoch.
    pub fn instant_seconds(&self) -> (r: i64)
        ensures
            r == self.inst(),
            instant_in_range(r),
    {
        proof {
            use_type_invariant(&*self);
        }
        self.instant
    }

    /// The zone name, or `None` for a UTC-zoned value.
    pub fn zone_str(&self) -> (r: Option<&str>)
        ensures
            match r {
                Some(z) => self.zone_view() == Some(z@),
                None => self.zone_view() is None,
            },
    {
        match &self.zone {
            Some(z) => Some(z.as_str()),
            None => None,
        }
    }

    /// An identical copy.
    pub fn duplicate(&self) -> (r: DateTimeTz)
        ensures
            r.inst() == self.inst(),
            r.zone_view() == self.zone_view(),
    {
        proof {
            use_type_invariant(&*self);
        }
        let zone = match &self.zone {
            Some(z) => Some(z.clone()),
            None => None,
        };
        DateTimeTz { instant: self.instant, zone }
    }

    /// A value with the instant sent through `f` and the zone kept.  When
    /// `f` takes the instant out of range the value is returned unchanged.
    pub fn map<F: FnOnce(i64) -> i64>(&self, f: F) -> (r: DateTimeTz)
        requires
            f.requires((self.inst(),)),
        ensures
            r.zone_view() == self.zone_view(),
            exists|v: i64|
                f.ensures((self.inst(),), v) && r.inst() == (if instant_in_range(v) {
                    v
                } else {
                    self.inst()
                }),
    {
        proof {
            use_type_invariant(&*self);
        }
        let v = f(self.instant_seconds());
        let instant = if MIN_INSTANT <= v && v <= MAX_INSTANT {
            v
        } else {
            self.instant
        };
        proof {
            assert(f.ensures((self.inst(),), v) && instant == (if instant_in_range(v) {
                v
            } else {
                self.inst()
            }));
        }
        let zone = match &self.zone {
            Some(z) => Some(z.clone()),
            None => None,
        };
        DateTimeTz { instant, zone }
    }

    /// Renders the value: the instant in RFC 3339 UTC form, then a space and
    /// the zone name when one is carried.  The second and third clauses state
    /// the round trip: parsing the rendering yields the instant and zone
    /// back, and the rendering carries the zone suffix exactly for non-UTC
    /// values.
    pub fn to_string(&self) -> (r: String)
        ensures
            match self.zone_view() {
                None => r@ == rfc3339_utc(self.inst()),
                Some(z) => r@ == rfc3339_utc(self.inst()) + seq![' '] + z,
            },
            from_str_model(r@) == Some((self.inst(), self.zone_view())),
    {
        proof {
            use_type_invariant(&*self);
        }
        let base = format_instant_utc(self.instant);
        match &self.zone {
            None => {
                proof {
                    lemma_find_char(base@, ' ');
                }
                base
            },
            Some(z) => {
                let ghost b = base@;
                let ghost zv = z@;
                let mut s = base;
                s.append(" ");
                s.append(z.as_str());
                proof {
                    reveal_strlit(" ");
                    assert(s@ =~= b + seq![' '] + zv);
                    lemma_to_string_splits(b, zv);
                    let sp = find_char(s@, ' ');
                    assert(s@.subrange(0, b.len() as int) =~= b);
                    assert(s@.subrange(b.len() as int + 1, s@.len() as int) =~= zv);
                }
                s
            },
        }
    }

    /// Parses the three accepted shapes: `<rfc3339>Z`, `<rfc3339>±HH:MM`,
    /// both yielding a UTC-zoned value, and `<rfc3339>Z <zone-name>`,
    /// yielding a value carrying that zone.  Returns `None` exactly when
    /// [`from_str_model`] rejects the string.
    pub fn from_str(s: &str) -> (r: Option<DateTimeTz>)
        ensures
            match r {
                Some(d) => from_str_model(s@) == Some((d.inst(), d.zone_view())),
                None => from_str_model(s@) is None,
            },
    {
        let n = s.unicode_len();
        match find_char_str(s, ' ') {
            None => Self::parse_utc_part(s),
            Some(sp) => {
                proof {
                    lemma_find_char(s@, ' ');
                }
                let head = s.substring_char(0, sp);
                let rest = s.substring_char(sp + 1, n);
                if rest.unicode_len() == 0 {
                    return Self::parse_utc_part(head);
                }
                match find_char_str(rest, ' ') {
                    Some(_) => Self::parse_utc_part(head),
                    None => {
                        if !zone_name_exists(rest) {
                            return None;
                        }
                        match parse_rfc3339(head) {
                            Some(t) => {
                                if t < MIN_INSTANT || t > MAX_INSTANT {
                                    return None;
                                }
                                if eq_str(rest, "Etc/UTC") {
                                    Some(DateTimeTz { instant: t, zone: None })
                                } else {
                                    Some(DateTimeTz { instant: t, zone: Some(rest.to_owned()) })
                                }
                            },
                            None => None,
                        }
                    },
                }
            },
        }
    }

    /// Parses a string that must be RFC 3339 on its own, yielding a
    /// UTC-zoned value.
    fn parse_utc_part(s: &str) -> (r: Option<DateTimeTz>)
        ensures
            match r {
                Some(d) => parse_utc_model(s@) == Some((d.inst(), d.zone_view()))
                    && d.zone_view() is None,
                None => parse_utc_model(s@) is None,
            },
    {
        match parse_rfc3339(s) {
            Some(t) => {
                if MIN_INSTANT <= t && t <= MAX_INSTANT {
                    Some(DateTimeTz { instant: t, zone: None })
                } else {
                    None
                }
            },
            None => None,
        }
    }
}

/// In `b + " " + z`, with no space in `b` and none in `z`, the first space
/// stands exactly after `b`, and the tail has no further space.
proof fn lemma_to_string_splits(b: Seq<char>, z: Seq<char>)
    requires
        forall|i: int| 0 <= i < b.len() ==> b[i] != ' ',
        forall|i: int| 0 <= i < z.len() ==> z[i] != ' ',
    ensures
        find_char(b + seq![' '] + z, ' ') == b.len(),
        find_char(z, ' ') == -1,
{
    let s = b + seq![' '] + z;
    lemma_find_char(s, ' ');
    assert(s[b.len() as int] == ' ');
    let f = find_char(s, ' ');
    assert(f != -1);
    if f < b.len() {
        assert(s[f] == b[f]);
    }
    assert(f == b.len());
    lemma_find_char(z, ' ');
}

impl PartialEq for DateTimeTz {
    /// Equality compares the absolute instant alone; the zone name never
    /// takes part.
    fn eq(&self, other: &DateTimeTz) -> (r: bool) {
        self.instant == other.instant
    }
}

impl vstd::std_specs::cmp::PartialEqSpecImpl for DateTimeTz {
    open spec fn obeys_eq_spec() -> bool {
        true
    }

    open spec fn eq_spec(&self, other: &DateTimeTz) -> bool {
        self.inst() == other.inst()
    }
}

impl Eq for DateTimeTz {

}

impl PartialOrd for DateTimeTz {
    /// Ordering compares the absolute instant alone.
    fn partial_cmp(&self, other: &DateTimeTz) -> (r: Option<core::cmp::Ordering>) {
        if self.instant < other.instant {
            Some(core::cmp::Ordering::Less)
        } else if self.instant == other.instant {
            Some(core::cmp::Ordering::Equal)
        } else {
            Some(core::cmp::Ordering::Greater)
        }
    }
}

impl vstd::std_specs::cmp::PartialOrdSpecImpl for DateTimeTz {
    open spec fn obeys_partial_cmp_spec() -> bool {
        true
    }

    open spec fn partial_cmp_spec(&self, other: &DateTimeTz) -> Option<core::cmp::Ordering> {
        if self.inst() < other.inst() {
            Some(core::cmp::Ordering::Less)
        } else if self.inst() == other.inst() {
            Some(core::cmp::Ordering::Equal)
        } else {
            Some(core::cmp::Ordering::Greater)
        }
    }
}

} // verus!
