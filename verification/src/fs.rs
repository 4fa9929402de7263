//! The trade date of a DEEP capture, taken from its file name.
use crate::text::{push_char, push_zero_padded, zero_padded};
use chrono::Datelike;
use vstd::prelude::*;
use vstd::string::StringSliceAdditionalSpecFns;
use vstd::utf8::{decode_utf8, is_char_boundary, valid_utf8};

verus! {

broadcast use vstd::utf8::group_utf8_lib;

/// Why no trade date could be taken from a file name.
#[derive(Debug, PartialEq, Eq, Structural)]
pub enum TradeDateFromFileErr {
    WrongFileExtension,
    NoStem,
    InvalidUnicode,
    InvalidDate,
}

/// A calendar date (proleptic Gregorian): year, month 1 to 12, day of the month.
#[derive(Debug, Clone, Copy, PartialEq, Eq, Structural)]
pub struct TradeDate {
    pub year: i32,
    pub month: u32,
    pub day: u32,
}

/// chrono's parse error, carried through without looking inside.
#[verifier::external_type_specification]
#[verifier::external_body]
pub struct ExChronoParseError(chrono::ParseError);

/// The `(year, month, day)` of the date that chrono's `NaiveDate::parse_from_str`
/// reads from `text` with the format `fmt`, or `None` where it reports an error.
pub uninterp spec fn chrono_date(text: Seq<char>, fmt: Seq<char>) -> Option<(i32, u32, u32)>;

/// The bytes of the file stem that `std::path::Path::file_stem` finds in `path`,
/// or `None` where it finds none.
pub uninterp spec fn path_file_stem(path: Seq<char>) -> Option<Seq<u8>>;

/// Parses a date with chrono.
///
/// Calls `chrono::NaiveDate::parse_from_str(text, fmt)` and hands back the
/// year, month and day of the date it returns, or its error. The contract ties
/// the outcome to `text` and `fmt` through the name `chrono_date`; what chrono
/// accepts is not stated.
#[verifier::external_body]
fn chrono_parse_date(text: &str, fmt: &str) -> (r: Result<(i32, u32, u32), chrono::ParseError>)
    ensures
        r is Ok <==> chrono_date(text@, fmt@) is Some,
        r matches Ok(ymd) ==> chrono_date(text@, fmt@) == Some(ymd),
{
    match chrono::NaiveDate::parse_from_str(text, fmt) {
        Ok(d) => Ok((d.year(), d.month(), d.day())),
        Err(e) => Err(e),
    }
}

/// Finds the file stem of a path.
///
/// Calls `std::path::Path::file_stem` on `path` and hands back the stem's bytes
/// (`OsStr::as_encoded_bytes`). The contract ties them to `path` through the
/// name `path_file_stem`; which stem the standard library finds is not stated.
#[verifier::external_body]
fn file_stem_bytes(path: &str) -> (r: Option<Vec<u8>>)
    ensures
        r is Some <==> path_file_stem(path@) is Some,
        r matches Some(b) ==> path_file_stem(path@) == Some(b@),
{
    match std::path::Path::new(path).file_stem() {
        Some(stem) => Some(stem.as_encoded_bytes().to_vec()),
        None => None,
    }
}

/// Reads bytes as UTF-8.
///
/// Calls `std::str::from_utf8`, which succeeds exactly on valid UTF-8 and then
/// views the same bytes as a string. The contract states that over vstd's
/// model of UTF-8.
#[verifier::external_body]
fn str_from_utf8(bytes: &[u8]) -> (r: Option<&str>)
    ensures
        r is Some <==> valid_utf8(bytes@),
        r matches Some(s) ==> s.spec_bytes() == bytes@,
{
    match std::str::from_utf8(bytes) {
        Ok(s) => Some(s),
        Err(_) => None,
    }
}

/// The date that `text` gives in the `YYYYMMDD` form, as chrono reads it.
pub open spec fn date_from_yyyymmdd(text: Seq<char>) -> Result<TradeDate, TradeDateFromFileErr> {
    match chrono_date(text, seq!['%', 'Y', '%', 'm', '%', 'd']) {
        Some((y, m, d)) => Ok(TradeDate { year: y, month: m, day: d }),
        None => Err(TradeDateFromFileErr::InvalidDate),
    }
}

/// Reads a `YYYYMMDD` date.
pub fn yyyymmdd_prefix_from_stem(stem: &str) -> (r: Result<TradeDate, TradeDateFromFileErr>)
    ensures
        r == date_from_yyyymmdd(stem@),
{
    let fmt = "%Y%m%d";
    proof {
        reveal_strlit("%Y%m%d");
        assert(fmt@ =~= seq!['%', 'Y', '%', 'm', '%', 'd']);
    }
    match chrono_parse_date(stem, fmt) {
        Ok((year, month, day)) => Ok(TradeDate { year, month, day }),
        Err(_) => Err(TradeDateFromFileErr::InvalidDate),
    }
}

/// The date part of a DEEP file stem: the characters in bytes 11 to 19.
pub open spec fn date_part(stem: Seq<u8>) -> Seq<char> {
    decode_utf8(stem.subrange(11, 19))
}

/// Bytes 11 and 19 of the stem of `path` start characters (or end the stem),
/// so that the date part can be cut out of it.
pub open spec fn stem_has_date_part(path: Seq<char>) -> bool {
    match path_file_stem(path) {
        Some(stem) => valid_utf8(stem) ==> is_char_boundary(stem, 11) && is_char_boundary(stem, 19),
        None => true,
    }
}

/// The trade date of the capture at `path`.
pub open spec fn trade_date_of(path: Seq<char>) -> Result<TradeDate, TradeDateFromFileErr> {
    match path_file_stem(path) {
        None => Err(TradeDateFromFileErr::NoStem),
        Some(stem) => if !valid_utf8(stem) {
            Err(TradeDateFromFileErr::InvalidUnicode)
        } else {
            date_from_yyyymmdd(date_part(stem))
        },
    }
}

proof fn lemma_prefix_boundary(b: Seq<u8>, end: int, i: int)
    requires
        valid_utf8(b),
        valid_utf8(b.subrange(0, end)),
        0 < i < end <= b.len(),
        is_char_boundary(b, i),
    ensures
        is_char_boundary(b.subrange(0, end), i),
{
    vstd::utf8::is_char_boundary_iff_not_is_continuation_byte(b, i);
    vstd::utf8::is_char_boundary_iff_not_is_continuation_byte(b.subrange(0, end), i);
}

/// The trade date of a DEEP capture, read from its file name: the stem carries
/// the date as `YYYYMMDD` in bytes 11 to 19 (`data_feeds_YYYYMMDD_...`).
pub fn trade_date_from_path(deep_pcap: &str) -> (r: Result<TradeDate, TradeDateFromFileErr>)
    requires
        stem_has_date_part(deep_pcap@),
    ensures
        r == trade_date_of(deep_pcap@),
{
    let stem_bytes = match file_stem_bytes(deep_pcap) {
        Some(b) => b,
        None => return Err(TradeDateFromFileErr::NoStem),
    };
    let stem = match str_from_utf8(stem_bytes.as_slice()) {
        Some(s) => s,
        None => return Err(TradeDateFromFileErr::InvalidUnicode),
    };
    let ghost b = stem_bytes@;
    let (head, _) = stem.split_at(19);
    proof {
        assert(head.spec_bytes() == b.subrange(0, 19));
        lemma_prefix_boundary(b, 19, 11);
    }
    let (_, date) = head.split_at(11);
    proof {
        assert(date.spec_bytes() == b.subrange(11, 19));
        assert(date@ == decode_utf8(date.spec_bytes()));
    }
    yyyymmdd_prefix_from_stem(date)
}

/// Like [`trade_date_from_path`], but `None` where the date part cannot be cut
/// out of the stem because byte 11 or 19 falls inside a character or past the
/// end of the stem.
pub fn try_trade_date_from_path(deep_pcap: &str) -> (r: Option<
    Result<TradeDate, TradeDateFromFileErr>,
>)
    ensures
        r is Some <==> stem_has_date_part(deep_pcap@),
        r matches Some(d) ==> d == trade_date_of(deep_pcap@),
{
    match file_stem_bytes(deep_pcap) {
        Some(b) => match str_from_utf8(b.as_slice()) {
            Some(stem) => {
                if stem.is_char_boundary(11) && stem.is_char_boundary(19) {
                    Some(trade_date_from_path(deep_pcap))
                } else {
                    None
                }
            },
            None => Some(trade_date_from_path(deep_pcap)),
        },
        None => Some(trade_date_from_path(deep_pcap)),
    }
}

/// The text of a year as chrono writes it: four digits for years 0 to 9999,
/// otherwise a sign and at least four digits.
pub open spec fn year_text(y: i32) -> Seq<char> {
    if 0 <= y <= 9999 {
        zero_padded(y as nat, 4)
    } else if y < 0 {
        seq!['-'] + zero_padded((-y) as nat, 4)
    } else {
        seq!['+'] + zero_padded(y as nat, 4)
    }
}

/// The ISO 8601 text of a date: `YYYY-MM-DD`.
pub open spec fn date_text(d: TradeDate) -> Seq<char> {
    year_text(d.year) + seq!['-'] + zero_padded(d.month as nat, 2) + seq!['-'] + zero_padded(
        d.day as nat,
        2,
    )
}

impl TradeDate {
    /// The date as `YYYY-MM-DD`.
    pub fn to_string(&self) -> (r: String)
        ensures
            r@ == date_text(*self),
    {
        let mut out = String::new();
        if 0 <= self.year && self.year <= 9999 {
            push_zero_padded(&mut out, self.year as u64, 4);
        } else if self.year < 0 {
            push_char(&mut out, '-');
            let magnitude: i64 = -(self.year as i64);
            push_zero_padded(&mut out, magnitude as u64, 4);
        } else {
            push_char(&mut out, '+');
            push_zero_padded(&mut out, self.year as u64, 4);
        }
        push_char(&mut out, '-');
        push_zero_padded(&mut out, self.month as u64, 2);
        push_char(&mut out, '-');
        push_zero_padded(&mut out, self.day as u64, 2);
        assert(out@ =~= date_text(*self));
        out
    }
}

} // verus!
