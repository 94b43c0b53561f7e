//! Outside types that the library carries without looking inside.
use vstd::prelude::*;
use vstd::utf8::*;

verus! {

/// A JSON value, carried as a whole.
#[verifier::external_type_specification]
#[verifier::external_body]
pub struct ExJsonValue(serde_json::Value);

/// `Value::clone` gives an equal value.
pub assume_specification[ <serde_json::Value as Clone>::clone ](v: &serde_json::Value) -> (r:
    serde_json::Value)
    ensures
        r == *v,
;

/// A handle that cancels an operation under way, carried as a whole.
#[verifier::external_type_specification]
#[verifier::external_body]
pub struct ExCancellationToken(tokio_util::sync::CancellationToken);

/// `CancellationToken::clone` gives a handle on the same operation: cancelling
/// either cancels both.
pub assume_specification[ <tokio_util::sync::CancellationToken as Clone>::clone ](
    t: &tokio_util::sync::CancellationToken,
) -> (r: tokio_util::sync::CancellationToken)
    ensures
        r == *t,
;

// ── Bytes and text ────────────────────────────────────────────────────

/// What `String::from_utf8_lossy` makes of bytes.
pub uninterp spec fn utf8_lossy(bytes: Seq<u8>) -> Seq<char>;

/// `String::from_utf8_lossy`: bytes in UTF-8 are decoded; what any other bytes
/// become has only a name.
#[verifier::external_body]
pub(crate) fn decode_lossy(bytes: &[u8]) -> (r: String)
    ensures
        r@ == utf8_lossy(bytes@),
        valid_utf8(bytes@) ==> r@ == decode_utf8(bytes@),
{
    String::from_utf8_lossy(bytes).into_owned()
}

/// What `strip_ansi_escapes::strip` leaves of bytes.
pub uninterp spec fn ansi_stripped(bytes: Seq<u8>) -> Seq<u8>;

/// `strip_ansi_escapes::strip` takes the escape sequences of a terminal out of
/// bytes.
#[verifier::external_body]
pub(crate) fn strip_escapes(bytes: &[u8]) -> (r: Vec<u8>)
    ensures
        r@ == ansi_stripped(bytes@),
{
    strip_ansi_escapes::strip(bytes)
}

/// The upper case of a letter from a to z; any other character as it is.
pub open spec fn ascii_upper(c: char) -> char {
    if 'a' <= c <= 'z' {
        (c as u32 - 32) as char
    } else {
        c
    }
}

/// All characters are ASCII.
pub open spec fn is_ascii_text(s: Seq<char>) -> bool {
    forall|i: int| 0 <= i < s.len() ==> (#[trigger] s[i] as u32) < 128
}

/// What `str::to_uppercase` makes of a text.
pub uninterp spec fn uppercased(s: Seq<char>) -> Seq<char>;

/// `str::to_uppercase`: ASCII text has its letters from a to z changed; what
/// any other text becomes has only a name.
#[verifier::external_body]
pub(crate) fn to_upper(s: &str) -> (r: String)
    ensures
        r@ == uppercased(s@),
        is_ascii_text(s@) ==> r@ == s@.map_values(|c: char| ascii_upper(c)),
{
    s.to_uppercase()
}

// ── Durations ─────────────────────────────────────────────────────────

/// How `Duration` is written for debugging, without decimals.
pub uninterp spec fn rounded_duration(secs: u64, nanos: u32) -> Seq<char>;

/// `{:.0?}` of a `Duration`.
#[verifier::external_body]
pub(crate) fn round_duration(secs: u64, nanos: u32) -> (r: String)
    requires
        nanos < 1_000_000_000,
    ensures
        r@ == rounded_duration(secs, nanos),
{
    format!("{:.0?}", std::time::Duration::new(secs, nanos))
}

/// No fewer than the seconds in the unit of time that a text begins with, as
/// far as `humantime` knows it.
pub open spec fn unit_bound(s: Seq<char>) -> nat {
    if s[0] == 'y' {
        31_557_600
    } else if s[0] == 'M' || (s[0] == 'm' && s.len() > 1 && s[1] == 'o') {
        2_630_016
    } else if s[0] == 'w' {
        604_800
    } else if s[0] == 'd' {
        86_400
    } else if s[0] == 'h' {
        3_600
    } else if s[0] == 'm' && !(s.len() > 1 && s[1] == 's') {
        60
    } else {
        1
    }
}

/// A letter, as units are made of.
pub open spec fn is_unit_letter(c: char) -> bool {
    'a' <= c <= 'z' || 'A' <= c <= 'Z' || c == 'µ'
}

/// No fewer than the seconds that the numbers and units of a text add up to:
/// `digits` is the number before the text, `total` what came before that.
pub open spec fn seconds_bound(s: Seq<char>, digits: nat, total: nat) -> nat
    decreases s.len(),
{
    if s.len() == 0 {
        total
    } else if '0' <= s[0] <= '9' {
        seconds_bound(s.drop_first(), digits * 10 + (s[0] as u32 - '0' as u32) as nat, total)
    } else if is_unit_letter(s[0]) {
        seconds_bound(s.drop_first(), 0, total + digits * unit_bound(s))
    } else {
        seconds_bound(s.drop_first(), digits, total)
    }
}

/// The durations in a text do not add up to more seconds than 64 bits hold.
pub open spec fn in_range(s: Seq<char>) -> bool {
    seconds_bound(s, 0, 0) <= u64::MAX
}

/// What `humantime::parse_duration` reads in a text: seconds and nanoseconds,
/// or what is wrong with it.
pub uninterp spec fn humantime_read(s: Seq<char>) -> Result<(u64, u32), Seq<char>>;

/// `humantime::parse_duration`, with its error written out. The parser panics
/// when the sum passes, by a carry from the nanoseconds, the most seconds that
/// 64 bits hold. A sum that stays within them never does; the bound counts the
/// digits behind a decimal point as digits of the number, which only raises
/// it.
#[verifier::external_body]
pub(crate) fn read_human(s: &str) -> (r: Result<(u64, u32), String>)
    requires
        in_range(s@),
    ensures
        match r {
            Ok(parts) => humantime_read(s@) == Ok::<(u64, u32), Seq<char>>(parts) && parts.1
                < 1_000_000_000,
            Err(e) => humantime_read(s@) == Err::<(u64, u32), Seq<char>>(e@),
        },
{
    humantime::parse_duration(s).map(|d| (d.as_secs(), d.subsec_nanos())).map_err(
        |e| e.to_string(),
    )
}

/// What `humantime::format_duration` writes.
pub uninterp spec fn humantime_text(secs: u64, nanos: u32) -> Seq<char>;

/// `humantime::format_duration`, written out.
#[verifier::external_body]
pub(crate) fn write_human(secs: u64, nanos: u32) -> (r: String)
    requires
        nanos < 1_000_000_000,
    ensures
        r@ == humantime_text(secs, nanos),
{
    humantime::format_duration(std::time::Duration::new(secs, nanos)).to_string()
}

} // verus!
