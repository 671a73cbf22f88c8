//! Text that the machine produces: numbers in decimal, instants as the
//! calendar shows them, and the joining of pieces into one string.
use vstd::prelude::*;
use super::machine::{Piece, PieceView};
use super::state::pieces_view;
use super::value::{NativeFunction, Timestamp};

verus! {

/// The character of a decimal digit.
pub open spec fn digit(d: nat) -> char {
    if d == 0 {
        '0'
    } else if d == 1 {
        '1'
    } else if d == 2 {
        '2'
    } else if d == 3 {
        '3'
    } else if d == 4 {
        '4'
    } else if d == 5 {
        '5'
    } else if d == 6 {
        '6'
    } else if d == 7 {
        '7'
    } else if d == 8 {
        '8'
    } else {
        '9'
    }
}

/// The decimal digits of a natural number, without leading zeros.
pub open spec fn digits(n: nat) -> Seq<char>
    decreases n,
{
    if n < 10 {
        seq![digit(n)]
    } else {
        digits(n / 10).push(digit(n % 10))
    }
}

/// An integer in decimal, with a minus sign if it is negative.
pub open spec fn decimal(i: int) -> Seq<char> {
    if i < 0 {
        seq!['-'] + digits((-i) as nat)
    } else {
        digits(i as nat)
    }
}

/// How an instant is written: year, month and day between slashes, then
/// hour, minute and second between colons, a dot and the microseconds.
pub open spec fn date_pattern() -> Seq<char> {
    "%Y/%m/%d %H:%M:%S.%6f"@
}

/// The text of an instant, given as seconds and nanoseconds since the Unix
/// epoch and the offset of local time from UTC in seconds, written after
/// `pattern`.  There is none for an instant or an offset outside what a
/// calendar date can express.
pub uninterp spec fn timestamp_text(
    seconds: i64,
    nanos: u32,
    offset: i32,
    pattern: Seq<char>,
) -> Option<Seq<char>>;

/// The text of one decimal digit.
fn digit_text(d: u64) -> (r: &'static str)
    requires
        d < 10,
    ensures
        r@ == seq![digit(d as nat)],
{
    proof {
        reveal_strlit("0");
        reveal_strlit("1");
        reveal_strlit("2");
        reveal_strlit("3");
        reveal_strlit("4");
        reveal_strlit("5");
        reveal_strlit("6");
        reveal_strlit("7");
        reveal_strlit("8");
        reveal_strlit("9");
    }
    let text = if d == 0 {
        "0"
    } else if d == 1 {
        "1"
    } else if d == 2 {
        "2"
    } else if d == 3 {
        "3"
    } else if d == 4 {
        "4"
    } else if d == 5 {
        "5"
    } else if d == 6 {
        "6"
    } else if d == 7 {
        "7"
    } else if d == 8 {
        "8"
    } else {
        "9"
    };
    assert(text@ =~= seq![digit(d as nat)]);
    text
}

/// Writes a natural number in decimal, the last digit first and each
/// other digit in front of what is written.
fn digits_text(n: u64) -> (r: String)
    ensures
        r@ == digits(n as nat),
{
    let mut text = String::from_str(digit_text(n % 10));
    let mut rest: u64 = n / 10;
    assert(rest > 0 ==> digits(n as nat) =~= digits(rest as nat) + text@);
    while rest > 0
        invariant
            rest > 0 ==> digits(n as nat) == digits(rest as nat) + text@,
            rest == 0 ==> digits(n as nat) == text@,
        decreases rest,
    {
        let front = String::from_str(digit_text(rest % 10));
        let ghost before = text@;
        text = front.concat(text.as_str());
        proof {
            let d = seq![digit((rest % 10) as nat)];
            if rest >= 10 {
                assert(digits(rest as nat) =~= digits((rest / 10) as nat) + d);
                assert(digits(n as nat) =~= digits((rest / 10) as nat) + (d + before));
            } else {
                assert(digits(rest as nat) =~= d);
            }
        }
        rest = rest / 10;
    }
    text
}

/// Writes a signed integer in decimal, with a minus sign in front of a
/// negative number.
pub(crate) fn integer_text(i: i64) -> (r: String)
    ensures
        r@ == decimal(i as int),
{
    if i < 0 {
        let magnitude: u64 = if i == i64::MIN {
            9223372036854775808
        } else {
            (-i) as u64
        };
        proof {
            reveal_strlit("-");
        }
        let text = String::from_str("-").concat(digits_text(magnitude).as_str());
        assert(text@ =~= seq!['-'] + digits((-i) as nat));
        text
    } else {
        digits_text(i as u64)
    }
}

/// Writes a count in decimal.
pub(crate) fn natural_text(n: usize) -> (r: String)
    ensures
        r@ == decimal(n as int),
{
    digits_text(n as u64)
}

/// Reads the clock with `chrono::Local::now` and takes the instant apart
/// with `timestamp`, `timestamp_subsec_nanos` and the offset's
/// `local_minus_utc`.  Nothing is claimed of the reading.
#[verifier::external_body]
pub(crate) fn clock_now() -> (r: Timestamp) {
    let now = chrono::Local::now();
    Timestamp {
        seconds: now.timestamp(),
        nanos: now.timestamp_subsec_nanos(),
        offset: now.offset().local_minus_utc(),
    }
}

/// Puts the instant together again with `chrono::DateTime::from_timestamp`
/// and `chrono::FixedOffset::east_opt`, moves it to that offset with
/// `with_timezone` and formats it after `pattern` with `format`.  The result
/// is a function of the three numbers and the pattern alone; it is missing
/// where one of the constructors refuses the numbers.  Only the pattern of
/// dates is admitted: `format` fails on a pattern that it cannot read.
#[verifier::external_body]
pub(crate) fn timestamp_string(stamp: Timestamp, pattern: &str) -> (r: Option<String>)
    requires
        pattern@ == date_pattern(),
    ensures
        match r {
            Some(text) => timestamp_text(stamp.seconds, stamp.nanos, stamp.offset, pattern@)
                == Some(text@),
            None => timestamp_text(stamp.seconds, stamp.nanos, stamp.offset, pattern@).is_none(),
        },
{
    let utc = chrono::DateTime::from_timestamp(stamp.seconds, stamp.nanos)?;
    let zone = chrono::FixedOffset::east_opt(stamp.offset)?;
    Some(utc.with_timezone(&zone).format(pattern).to_string())
}

/// The name under which a built-in function is registered.
pub open spec fn native_name(function: NativeFunction) -> Seq<char> {
    match function {
        NativeFunction::Len => "len"@,
        NativeFunction::Append => "append"@,
        NativeFunction::Last => "last"@,
        NativeFunction::Rest => "rest"@,
        NativeFunction::Str => "str"@,
        NativeFunction::First => "first"@,
        NativeFunction::Now => "now"@,
        NativeFunction::Range => "range"@,
        NativeFunction::Get => "get"@,
    }
}

pub fn name_of_native(function: NativeFunction) -> (r: String)
    ensures
        r@ == native_name(function),
{
    match function {
        NativeFunction::Len => String::from_str("len"),
        NativeFunction::Append => String::from_str("append"),
        NativeFunction::Last => String::from_str("last"),
        NativeFunction::Rest => String::from_str("rest"),
        NativeFunction::Str => String::from_str("str"),
        NativeFunction::First => String::from_str("first"),
        NativeFunction::Now => String::from_str("now"),
        NativeFunction::Range => String::from_str("range"),
        NativeFunction::Get => String::from_str("get"),
    }
}

/// The text that the pieces from position `from` on make when put end to
/// end, if none of them is a float.
pub open spec fn flatten(pieces: Seq<PieceView>, from: int) -> Option<Seq<char>>
    decreases pieces.len() - from,
{
    if from < 0 || from >= pieces.len() {
        Some(Seq::empty())
    } else {
        match pieces[from] {
            PieceView::Float(_) => None,
            PieceView::Text(text) => match flatten(pieces, from + 1) {
                None => None,
                Some(rest) => Some(text + rest),
            },
        }
    }
}

/// `flatten` from `from` is the text of the pieces up to `upto` followed by
/// `flatten` from `upto`, when those pieces are all text.
proof fn lemma_flatten_split(pieces: Seq<PieceView>, from: int, upto: int, prefix: Seq<char>)
    requires
        0 <= from <= upto <= pieces.len(),
        flatten(pieces.take(upto), from) == Some(prefix),
    ensures
        flatten(pieces, from) == match flatten(pieces, upto) {
            None => None::<Seq<char>>,
            Some(rest) => Some(prefix + rest),
        },
    decreases upto - from,
{
    if from < upto {
        assert(pieces.take(upto)[from] == pieces[from]);
        match pieces[from] {
            PieceView::Float(_) => {},
            PieceView::Text(text) => {
                let tail = flatten(pieces.take(upto), from + 1)->Some_0;
                lemma_flatten_split(pieces, from + 1, upto, tail);
                match flatten(pieces, upto) {
                    None => {},
                    Some(rest) => {
                        assert(text + (tail + rest) =~= (text + tail) + rest);
                    },
                }
            },
        }
    } else {
        match flatten(pieces, upto) {
            None => {},
            Some(rest) => {
                assert(prefix + rest =~= rest);
            },
        }
    }
}

/// Puts the pieces end to end; there is no text if one of them is a float.
pub fn join(pieces: &Vec<Piece>) -> (r: Option<String>)
    ensures
        match r {
            Some(text) => flatten(pieces_view(pieces@), 0) == Some(text@),
            None => flatten(pieces_view(pieces@), 0).is_none(),
        },
{
    let ghost all = pieces_view(pieces@);
    let mut text = String::new();
    let mut index: usize = 0;
    while index < pieces.len()
        invariant
            index <= pieces@.len(),
            all == pieces_view(pieces@),
            flatten(all.take(index as int), 0) == Some(text@),
        decreases pieces@.len() - index,
    {
        match &pieces[index] {
            Piece::Float(_) => {
                proof {
                    lemma_flatten_split(all, 0, index as int, text@);
                }
                return None;
            },
            Piece::Text(part) => {
                proof {
                    let next = all.take(index + 1);
                    assert(next.take(index as int) =~= all.take(index as int));
                    lemma_flatten_split(next, 0, index as int, text@);
                    assert(flatten(next, index + 1) == Some(Seq::<char>::empty()));
                    assert(part@ + Seq::<char>::empty() =~= part@);
                }
                text.append(part.as_str());
            },
        }
        index += 1;
    }
    assert(all.take(index as int) =~= all);
    Some(text)
}

} // verus!
