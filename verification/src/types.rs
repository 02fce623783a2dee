//! Identifiers, record envelopes and the line codec of the store.
//!
//! Every line of the log is the rendering of a [`DeletableRecord`]:
//! `{"id":"<hyphenated-uuid>","data":<payload json>}`, with `null` as the
//! payload of a tombstone.  The codec here writes that form and parses it
//! back, also accepting the historical variant that carries the `data`
//! field first.

use vstd::prelude::*;
use vstd::string::StrSliceExecFns;
use vstd::string::StringExecFns;

use crate::date_time_tz::DateTimeTz;
use crate::text::eq_str;

verus! {

/// Errors of the store.
#[derive(Clone, Copy, Debug, PartialEq, Eq, Structural)]
pub enum Error {
    /// A string is not a valid unique-identifier encoding.
    UUIDParseError,
    /// A record could not be encoded to its line form.
    JSONStringError,
    /// A line could not be parsed back into a record.
    JSONParseError,
    /// An underlying file operation failed.
    IOError,
}

impl Error {
    /// A short description of the error.
    pub fn message(&self) -> (r: &'static str) {
        match self {
            Error::UUIDParseError => "the identifier failed to parse",
            Error::JSONStringError => "the record could not be encoded",
            Error::JSONParseError => "the line could not be parsed",
            Error::IOError => "an IO operation failed",
        }
    }
}

/// The hex digit characters, lowercase.
pub open spec fn hex_char(n: int) -> char {
    if n == 0 {
        '0'
    } else if n == 1 {
        '1'
    } else if n == 2 {
        '2'
    } else if n == 3 {
        '3'
    } else if n == 4 {
        '4'
    } else if n == 5 {
        '5'
    } else if n == 6 {
        '6'
    } else if n == 7 {
        '7'
    } else if n == 8 {
        '8'
    } else if n == 9 {
        '9'
    } else if n == 10 {
        'a'
    } else if n == 11 {
        'b'
    } else if n == 12 {
        'c'
    } else if n == 13 {
        'd'
    } else if n == 14 {
        'e'
    } else {
        'f'
    }
}

/// Position of a character of the hyphenated form among the 32 hex digits:
/// hyphens stand at positions 8, 13, 18 and 23.
pub open spec fn uuid_digit_index(i: int) -> int {
    if i < 8 {
        i
    } else if i < 13 {
        i - 1
    } else if i < 18 {
        i - 2
    } else if i < 23 {
        i - 3
    } else {
        i - 4
    }
}

/// Hex digit `d` of a 128-bit value, most significant first.
pub open spec fn uuid_nibble(b: u128, d: int) -> int {
    ((b >> ((4 * (31 - d)) as u128)) & 0xf) as int
}

/// The hyphenated rendering of a 128-bit identifier: 32 lowercase hex
/// digits, most significant first, with hyphens after digits 8, 12, 16
/// and 20.
pub open spec fn spec_hyphenated(b: u128) -> Seq<char> {
    Seq::new(
        36,
        |i: int|
            if i == 8 || i == 13 || i == 18 || i == 23 {
                '-'
            } else {
                hex_char(uuid_nibble(b, uuid_digit_index(i)))
            },
    )
}

/// The identifier denoted by a string in one of the encodings that the uuid
/// crate accepts, or `None` when the string is not one.
pub uninterp spec fn uuid_parse_spec(s: Seq<char>) -> Option<u128>;

/// Relies on uuid's `Uuid::new_v4`: a freshly generated random identifier.
#[verifier::external_body]
fn fresh_uuid_bits() -> u128 {
    uuid::Uuid::new_v4().as_u128()
}

/// Relies on uuid's `Uuid::from_u128` and its `Hyphenated` formatter: the
/// rendering is the 32 lowercase hex digits of the value in big-endian
/// order with hyphens after digits 8, 12, 16 and 20, and `Uuid::parse_str`
/// documents that it accepts the hyphenated form and returns the value.
#[verifier::external_body]
fn format_uuid(bits: u128) -> (r: String)
    ensures
        r@ == spec_hyphenated(bits),
        uuid_parse_spec(r@) == Some(bits),
{
    uuid::Uuid::from_u128(bits).hyphenated().to_string()
}

/// Relies on uuid's `Uuid::parse_str` and `as_u128`: parsing is a function
/// of the input alone.
#[verifier::external_body]
fn parse_uuid(s: &str) -> (r: Option<u128>)
    ensures
        r == uuid_parse_spec(s@),
{
    match uuid::Uuid::parse_str(s) {
        Ok(u) => Some(u.as_u128()),
        Err(_) => None,
    }
}

/// Uniquely identifies a record: a 128-bit value with version-4 UUID
/// semantics, generated fresh for every new record and never reused.
#[derive(Clone, Copy, Debug, PartialEq, Eq, Hash, Structural)]
pub struct UniqueId(pub u128);

impl UniqueId {
    /// A fresh random identifier.
    pub fn new() -> UniqueId {
        UniqueId(fresh_uuid_bits())
    }

    /// Parses an identifier from its string encoding.
    pub fn from_str(s: &str) -> (r: Result<UniqueId, Error>)
        ensures
            match r {
                Ok(u) => uuid_parse_spec(s@) == Some(u.0),
                Err(e) => uuid_parse_spec(s@) is None && e == Error::UUIDParseError,
            },
    {
        match parse_uuid(s) {
            Some(b) => Ok(UniqueId(b)),
            None => Err(Error::UUIDParseError),
        }
    }

    /// The hyphenated string encoding.
    pub fn to_string(&self) -> (r: String)
        ensures
            r@ == spec_hyphenated(self.0),
            uuid_parse_spec(r@) == Some(self.0),
    {
        format_uuid(self.0)
    }
}

impl core::str::FromStr for UniqueId {
    type Err = Error;

    fn from_str(s: &str) -> Result<UniqueId, Error> {
        UniqueId::from_str(s)
    }
}

/// What a payload type must provide to be stored: a timestamp and tags to
/// search on, a rendering to a single line of JSON text and the matching
/// parser, and a way to copy itself.  The store is verified against these
/// contracts; a payload implementation is obliged to meet them, as any
/// serialization hook is: `from_json` must decode what `to_json` produced,
/// the rendering must be a single line, and `null` is reserved for
/// tombstones.  The `spec` members are the payload's model; they take no
/// part at run time, and an implementation outside the verifier may give
/// them any body.
pub trait Recordable: Sized {
    /// The abstract decoding of a payload rendering; `to_json` and
    /// `from_json` both answer to it.
    spec fn parses_to(s: Seq<char>) -> Option<Self>;

    /// The timestamp the payload reports, as a specification-level value.
    spec fn timestamp_spec(&self) -> DateTimeTz;

    /// The tags the payload reports, as a specification-level value.
    spec fn tags_spec(&self) -> Seq<Seq<char>>;

    /// The timestamp for the record.
    fn timestamp(&self) -> (t: DateTimeTz)
        ensures
            t == self.timestamp_spec(),
    ;

    /// A list of string tags that can be used when searching.
    fn tags(&self) -> (t: Vec<String>)
        ensures
            t.deep_view() == self.tags_spec(),
    ;

    /// Renders the payload as JSON text: a single line, never the bare
    /// `null` that marks a tombstone, and decoded by `parses_to` back to
    /// the payload itself.
    fn to_json(&self) -> (s: String)
        ensures
            Self::parses_to(s@) == Some(*self),
            s@ != "null"@,
            forall|i: int| 0 <= i < s@.len() ==> s@[i] != '\n',
    ;

    /// Parses JSON text produced by `to_json`.
    fn from_json(s: &str) -> (r: Option<Self>)
        ensures
            r == Self::parses_to(s@),
    ;

    /// An identical copy.
    fn duplicate(&self) -> (r: Self)
        ensures
            r == *self,
    ;
}

/// A live record: an identifier and its payload.  This is the in-memory
/// view after replay; the data is always present.
#[derive(Debug)]
pub struct Record<T: Recordable> {
    pub id: UniqueId,
    pub data: T,
}

impl<T: Recordable> Record<T> {
    /// Wraps a payload with a fresh identifier.
    pub fn new(data: T) -> (r: Record<T>)
        ensures
            r.data == data,
    {
        Record { id: UniqueId::new(), data }
    }

    /// The timestamp of the payload.
    pub fn timestamp(&self) -> (t: DateTimeTz)
        ensures
            t == self.data.timestamp_spec(),
    {
        self.data.timestamp()
    }

    /// The tags of the payload.
    pub fn tags(&self) -> (t: Vec<String>)
        ensures
            t.deep_view() == self.data.tags_spec(),
    {
        self.data.tags()
    }

    /// An identical copy.
    pub fn duplicate(&self) -> (r: Record<T>)
        ensures
            r == *self,
    {
        Record { id: self.id, data: self.data.duplicate() }
    }
}

/// The on-disk envelope: an identifier and either a payload (a live write)
/// or `None` (a tombstone).  This is the only shape ever written to the
/// log.
#[derive(Debug)]
pub struct DeletableRecord<T: Recordable> {
    pub id: UniqueId,
    pub data: Option<T>,
}

/// What a log line denotes: the identifier and the optional payload, or
/// `None` when the line is rejected.  Two shapes are accepted, the `id`
/// field first — the shape this library writes — or the `data` field
/// first, as older files carry it; both compact, one JSON object per line.
pub open spec fn parse_line_model<T: Recordable>(s: Seq<char>) -> Option<(u128, Option<T>)> {
    let n = s.len() as int;
    if n >= 53 && s.subrange(0, 7) == "{\"id\":\""@ && s.subrange(43, 52) == "\",\"data\":"@ && s[n
        - 1] == '}' {
        match uuid_parse_spec(s.subrange(7, 43)) {
            Some(b) => parse_data_model::<T>(b, s.subrange(52, n - 1)),
            None => None,
        }
    } else if n >= 53 && s.subrange(0, 8) == "{\"data\":"@ && s.subrange(n - 45, n - 38)
        == ",\"id\":\""@ && s.subrange(n - 2, n) == "\"}"@ {
        match uuid_parse_spec(s.subrange(n - 38, n - 2)) {
            Some(b) => parse_data_model::<T>(b, s.subrange(8, n - 45)),
            None => None,
        }
    } else {
        None
    }
}

/// The payload text of a line: `null` is a tombstone, anything else must
/// decode as the payload type.
pub open spec fn parse_data_model<T: Recordable>(b: u128, data: Seq<char>) -> Option<
    (u128, Option<T>),
> {
    if data == "null"@ {
        Some((b, None))
    } else {
        match T::parses_to(data) {
            Some(v) => Some((b, Some(v))),
            None => None,
        }
    }
}

impl<T: Recordable> DeletableRecord<T> {
    /// Parses one log line.  Returns `Ok` exactly when [`parse_line_model`]
    /// accepts the line, and then carries the identifier and payload the
    /// model gives.
    pub fn from_str(line: &str) -> (r: Result<DeletableRecord<T>, Error>)
        ensures
            match r {
                Ok(d) => parse_line_model::<T>(line@) == Some((d.id.0, d.data)),
                Err(e) => parse_line_model::<T>(line@) is None && e == Error::JSONParseError,
            },
    {
        proof {
            reveal_strlit("{\"id\":\"");
            reveal_strlit("\",\"data\":");
            reveal_strlit("{\"data\":");
            reveal_strlit(",\"id\":\"");
            reveal_strlit("\"}");
        }
        let n = line.unicode_len();
        if n < 53 {
            return Err(Error::JSONParseError);
        }
        let p7 = line.substring_char(0, 7);
        if eq_str(p7, "{\"id\":\"") {
            let mid = line.substring_char(43, 52);
            if eq_str(mid, "\",\"data\":") && line.get_char(n - 1) == '}' {
                let ids = line.substring_char(7, 43);
                match parse_uuid(ids) {
                    Some(b) => {
                        let data = line.substring_char(52, n - 1);
                        Self::from_data_text(b, data)
                    },
                    None => Err(Error::JSONParseError),
                }
            } else {
                proof {
                    // The two accepted shapes disagree at this character, so
                    // a line opening with the id prefix fits no other shape.
                    assert(line@.subrange(0, 8)[2] == line@[2]);
                    assert(line@.subrange(0, 7)[2] == line@[2]);
                }
                Err(Error::JSONParseError)
            }
        } else {
            let p8 = line.substring_char(0, 8);
            if eq_str(p8, "{\"data\":") {
                let sep = line.substring_char(n - 45, n - 38);
                let tail = line.substring_char(n - 2, n);
                if eq_str(sep, ",\"id\":\"") && eq_str(tail, "\"}") {
                    let ids = line.substring_char(n - 38, n - 2);
                    match parse_uuid(ids) {
                        Some(b) => {
                            let data = line.substring_char(8, n - 45);
                            Self::from_data_text(b, data)
                        },
                        None => Err(Error::JSONParseError),
                    }
                } else {
                    Err(Error::JSONParseError)
                }
            } else {
                Err(Error::JSONParseError)
            }
        }
    }

    /// Builds the envelope from the identifier and the payload text of a
    /// line.
    fn from_data_text(b: u128, data: &str) -> (r: Result<DeletableRecord<T>, Error>)
        ensures
            match r {
                Ok(d) => parse_data_model::<T>(b, data@) == Some((d.id.0, d.data)) && d.id.0 == b,
                Err(e) => parse_data_model::<T>(b, data@) is None && e == Error::JSONParseError,
            },
    {
        if eq_str(data, "null") {
            Ok(DeletableRecord { id: UniqueId(b), data: None })
        } else {
            match T::from_json(data) {
                Some(v) => Ok(DeletableRecord { id: UniqueId(b), data: Some(v) }),
                None => Err(Error::JSONParseError),
            }
        }
    }

    /// Renders the envelope as one log line, the `id` field first.  The
    /// first clause is the round trip: the line parses back to exactly this
    /// envelope.  The second keeps the log line-structured.
    pub fn to_line(&self) -> (r: String)
        ensures
            parse_line_model::<T>(r@) == Some((self.id.0, self.data)),
            forall|i: int| 0 <= i < r@.len() ==> r@[i] != '\n',
    {
        proof {
            reveal_strlit("{\"id\":\"");
            reveal_strlit("\",\"data\":");
            reveal_strlit("null");
            reveal_strlit("}");
        }
        let ids = format_uuid(self.id.0);
        let mut line = String::new();
        line.append("{\"id\":\"");
        line.append(ids.as_str());
        line.append("\",\"data\":");
        let ghost pre = line@;
        let ghost mut dtext: Seq<char> = Seq::empty();
        match &self.data {
            None => {
                line.append("null");
                proof {
                    dtext = "null"@;
                }
            },
            Some(v) => {
                let pj = v.to_json();
                line.append(pj.as_str());
                proof {
                    dtext = pj@;
                }
            },
        }
        line.append("}");
        proof {
            let l = line@;
            let b = self.id.0;
            assert(pre =~= "{\"id\":\""@ + spec_hyphenated(b) + "\",\"data\":"@);
            assert(pre.len() == 52);
            assert(l =~= pre + dtext + "}"@);
            let n = l.len() as int;
            assert(n == 53 + dtext.len());
            assert(l.subrange(0, 7) =~= "{\"id\":\""@);
            assert(l.subrange(7, 43) =~= spec_hyphenated(b));
            assert(l.subrange(43, 52) =~= "\",\"data\":"@);
            assert(l[n - 1] == '}');
            assert(l.subrange(52, n - 1) =~= dtext);
            assert(uuid_parse_spec(l.subrange(7, 43)) == Some(b));
            match &self.data {
                None => {
                    assert(dtext =~= "null"@);
                },
                Some(v) => {
                    assert(dtext != "null"@);
                    assert(T::parses_to(dtext) == Some(*v));
                },
            }
            assert(parse_line_model::<T>(l) == Some((self.id.0, self.data)));
            assert forall|i: int| 0 <= i < l.len() implies l[i] != '\n' by {
                if i < 7 {
                } else if i < 43 {
                    assert(l[i] == spec_hyphenated(b)[i - 7]);
                } else if i < 52 {
                } else if i < n - 1 {
                    assert(l[i] == dtext[i - 52]);
                    lemma_data_text_no_newline::<T>(self.data, dtext);
                } else {
                }
            }
        }
        line
    }
}

/// The payload text written for an envelope holds no newline: `null` has
/// none, and `Recordable::to_json` promises none.
proof fn lemma_data_text_no_newline<T: Recordable>(data: Option<T>, dtext: Seq<char>)
    requires
        match data {
            None => dtext == "null"@,
            Some(v) => T::parses_to(dtext) == Some(v) && forall|i: int|
                0 <= i < dtext.len() ==> dtext[i] != '\n',
        },
    ensures
        forall|i: int| 0 <= i < dtext.len() ==> dtext[i] != '\n',
{
    reveal_strlit("null");
    match data {
        None => {
            assert forall|i: int| 0 <= i < dtext.len() implies dtext[i] != '\n' by {
                assert(dtext =~= "null"@);
            }
        },
        Some(v) => {
        },
    }
}

impl<T: Recordable> core::str::FromStr for DeletableRecord<T> {
    type Err = Error;

    fn from_str(line: &str) -> Result<DeletableRecord<T>, Error> {
        DeletableRecord::from_str(line)
    }
}

} // verus!
