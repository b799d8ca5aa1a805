//! The date and time that a DateTime field writes in ASCII.

use crate::error::{format_error, Error, ErrorModel};
use crate::util::{atou16, decimal, is_number, lemma_decimal_bound};
use vstd::prelude::*;
use vstd::slice::slice_subrange;
use vstd::string::StringExecFns;

verus! {

/// The ASCII space.
pub const SPACE: u8 = 0x20;

/// The ASCII colon.
pub const COLON: u8 = 0x3a;

/// A date and a time of day, as a DateTime field states them.
///
/// The numbers are those that the field writes: no range is imposed, so a
/// month may be 13.
#[derive(Clone, Copy, Debug, PartialEq, Eq, Structural)]
pub struct DateTime {
    pub year: u16,
    pub month: u8,
    pub day: u8,
    pub hour: u8,
    pub minute: u8,
    pub second: u8,
}

/// Whether position `i` of a DateTime holds a colon in a blank field that
/// keeps its delimiters.
pub open spec fn is_colon_place(i: int) -> bool {
    i == 4 || i == 7 || i == 13 || i == 16
}

/// Whether `data` is one of the two blank fields of 19 bytes: spaces only,
/// or spaces with the four colons in their places.
pub open spec fn is_blank(data: Seq<u8>) -> bool {
    data.len() == 19 && ((forall|i: int| 0 <= i < 19 ==> #[trigger] data[i] == SPACE) || (forall|
        i: int,
    |
        0 <= i < 19 ==> #[trigger] data[i] == if is_colon_place(i) {
            COLON
        } else {
            SPACE
        }))
}

/// Whether the five delimiters of `YYYY:MM:DD HH:MM:SS` stand in `data`.
pub open spec fn has_delimiters(data: Seq<u8>) -> bool
    recommends
        data.len() >= 19,
{
    data[4] == COLON && data[7] == COLON && data[10] == SPACE && data[13] == COLON && data[16]
        == COLON
}

/// Whether each of the six numbers of `data` is written in digits only.
pub open spec fn has_numbers(data: Seq<u8>) -> bool
    recommends
        data.len() >= 19,
{
    is_number(data.subrange(0, 4)) && is_number(data.subrange(5, 7)) && is_number(
        data.subrange(8, 10),
    ) && is_number(data.subrange(11, 13)) && is_number(data.subrange(14, 16)) && is_number(
        data.subrange(17, 19),
    )
}

/// The date and time that `data` writes as `YYYY:MM:DD HH:MM:SS`, or why
/// `data` is refused.  Bytes after the nineteenth are not looked at.
pub open spec fn datetime_of(data: Seq<u8>) -> Result<DateTime, ErrorModel> {
    if is_blank(data) {
        Err(ErrorModel::BlankValue("DateTime is blank"@))
    } else if data.len() < 19 {
        Err(format_error("DateTime too short"))
    } else if !has_delimiters(data) {
        Err(format_error("Invalid DateTime delimiter"))
    } else if !has_numbers(data) {
        Err(format_error("Not a number"))
    } else {
        Ok(
            DateTime {
                year: decimal(data.subrange(0, 4)) as u16,
                month: decimal(data.subrange(5, 7)) as u8,
                day: decimal(data.subrange(8, 10)) as u8,
                hour: decimal(data.subrange(11, 13)) as u8,
                minute: decimal(data.subrange(14, 16)) as u8,
                second: decimal(data.subrange(17, 19)) as u8,
            },
        )
    }
}

/// The character that writes the decimal digit `d`.
pub open spec fn digit_char(d: nat) -> char
    recommends
        d < 10,
{
    if d == 0 {
        '0'
    } else if d == 1 {
        '1'
    } else if d == 2 {
        '2'
    } else if d == 3 {
        '3'
    } else if d == 4 {
        '4'
    } else if d == 5 {
        '5'
    } else if d == 6 {
        '6'
    } else if d == 7 {
        '7'
    } else if d == 8 {
        '8'
    } else {
        '9'
    }
}

/// The number `n` written in base ten with at least `width` digits, zeros
/// in front where `n` has fewer.
pub open spec fn padded(n: nat, width: nat) -> Seq<char>
    decreases n + width,
{
    if n < 10 && width <= 1 {
        seq![digit_char(n)]
    } else {
        padded(
            n / 10,
            if width > 0 {
                (width - 1) as nat
            } else {
                0
            },
        ).push(digit_char(n % 10))
    }
}

/// The text `YYYY-MM-DD HH:MM:SS` of a date and time: the year with at
/// least four digits, each other number with at least two.
pub open spec fn datetime_text(dt: DateTime) -> Seq<char> {
    padded(dt.year as nat, 4) + seq!['-'] + padded(dt.month as nat, 2) + seq!['-'] + padded(
        dt.day as nat,
        2,
    ) + seq![' '] + padded(dt.hour as nat, 2) + seq![':'] + padded(dt.minute as nat, 2) + seq![':']
        + padded(dt.second as nat, 2)
}

fn digit_str(d: u16) -> (s: &'static str)
    requires
        d < 10,
    ensures
        s@ == seq![digit_char(d as nat)],
{
    proof {
        reveal_strlit("0");
        reveal_strlit("1");
        reveal_strlit("2");
        reveal_strlit("3");
        reveal_strlit("4");
        reveal_strlit("5");
        reveal_strlit("6");
        reveal_strlit("7");
        reveal_strlit("8");
        reveal_strlit("9");
    }
    let s: &'static str = if d == 0 {
        "0"
    } else if d == 1 {
        "1"
    } else if d == 2 {
        "2"
    } else if d == 3 {
        "3"
    } else if d == 4 {
        "4"
    } else if d == 5 {
        "5"
    } else if d == 6 {
        "6"
    } else if d == 7 {
        "7"
    } else if d == 8 {
        "8"
    } else {
        "9"
    };
    proof {
        assert(s@ =~= seq![digit_char(d as nat)]);
    }
    s
}

fn push_padded(text: &mut String, n: u16, width: usize)
    requires
        1 <= width <= 5,
    ensures
        final(text)@ == old(text)@ + padded(n as nat, width as nat),
{
    let ghost before = text@;
    let ghost m = n as nat;
    proof {
        reveal_with_fuel(padded, 6);
    }
    if n >= 10000 || width >= 5 {
        text.append(digit_str(n / 10000));
    }
    if n >= 1000 || width >= 4 {
        text.append(digit_str(n / 1000 % 10));
    }
    if n >= 100 || width >= 3 {
        text.append(digit_str(n / 100 % 10));
    }
    if n >= 10 || width >= 2 {
        text.append(digit_str(n / 10 % 10));
    }
    text.append(digit_str(n % 10));
    proof {
        assert(m / 10 / 10 == m / 100);
        assert(m / 10 / 10 / 10 == m / 1000);
        assert(m / 10 / 10 / 10 / 10 == m / 10000);
        assert(text@ =~= before + padded(m, width as nat));
    }
}

fn blank(data: &[u8]) -> (b: bool)
    ensures
        b == is_blank(data@),
{
    if data.len() != 19 {
        return false;
    }
    let mut spaces: bool = true;
    let mut colons: bool = true;
    let mut i: usize = 0;
    while i < 19
        invariant
            i <= 19,
            data.len() == 19,
            spaces == (forall|k: int| 0 <= k < i ==> #[trigger] data@[k] == SPACE),
            colons == (forall|k: int|
                0 <= k < i ==> #[trigger] data@[k] == if is_colon_place(k) {
                    COLON
                } else {
                    SPACE
                }),
        decreases 19 - i,
    {
        let c: u8 = data[i];
        if c != SPACE {
            spaces = false;
        }
        let colon_place: bool = i == 4 || i == 7 || i == 13 || i == 16;
        if colon_place {
            if c != COLON {
                colons = false;
            }
        } else if c != SPACE {
            colons = false;
        }
        i += 1;
    }
    spaces || colons
}

fn two_digits(data: &[u8], from: usize) -> (r: Result<u8, Error>)
    requires
        from + 2 <= data.len(),
    ensures
        is_number(data@.subrange(from as int, from + 2)) ==> r == Ok::<u8, Error>(
            decimal(data@.subrange(from as int, from + 2)) as u8,
        ) && decimal(data@.subrange(from as int, from + 2)) <= 99,
        !is_number(data@.subrange(from as int, from + 2)) ==> (r matches Err(e) && e@
            == format_error("Not a number")),
{
    let digits = slice_subrange(data, from, from + 2);
    match atou16(digits) {
        Ok(n) => {
            proof {
                lemma_decimal_bound(digits@);
            }
            Ok(n as u8)
        },
        Err(e) => Err(e),
    }
}

impl DateTime {
    /// Parses the ASCII data of a DateTime field.  The range of a number is
    /// not validated, so, for example, 13 may be returned as the month.
    pub fn from_ascii(data: &[u8]) -> (r: Result<DateTime, Error>)
        ensures
            match datetime_of(data@) {
                Ok(dt) => r matches Ok(d) && d == dt,
                Err(err) => r matches Err(e) && e@ == err,
            },
    {
        if blank(data) {
            return Err(Error::BlankValue("DateTime is blank"));
        } else if data.len() < 19 {
            return Err(Error::InvalidFormat("DateTime too short"));
        } else if !(data[4] == COLON && data[7] == COLON && data[10] == SPACE && data[13] == COLON
            && data[16] == COLON) {
            return Err(Error::InvalidFormat("Invalid DateTime delimiter"));
        }
        let year: u16 = match atou16(slice_subrange(data, 0, 4)) {
            Ok(n) => n,
            Err(e) => {
                return Err(e);
            },
        };
        let month: u8 = match two_digits(data, 5) {
            Ok(n) => n,
            Err(e) => {
                return Err(e);
            },
        };
        let day: u8 = match two_digits(data, 8) {
            Ok(n) => n,
            Err(e) => {
                return Err(e);
            },
        };
        let hour: u8 = match two_digits(data, 11) {
            Ok(n) => n,
            Err(e) => {
                return Err(e);
            },
        };
        let minute: u8 = match two_digits(data, 14) {
            Ok(n) => n,
            Err(e) => {
                return Err(e);
            },
        };
        let second: u8 = match two_digits(data, 17) {
            Ok(n) => n,
            Err(e) => {
                return Err(e);
            },
        };
        Ok(DateTime { year, month, day, hour, minute, second })
    }

    /// Writes the date and time as `YYYY-MM-DD HH:MM:SS`.  A number that
    /// needs more digits than its place has gets them.
    pub fn to_string(&self) -> (text: String)
        ensures
            text@ == datetime_text(*self),
    {
        let mut text = String::new();
        push_padded(&mut text, self.year, 4);
        text.append("-");
        push_padded(&mut text, self.month as u16, 2);
        text.append("-");
        push_padded(&mut text, self.day as u16, 2);
        text.append(" ");
        push_padded(&mut text, self.hour as u16, 2);
        text.append(":");
        push_padded(&mut text, self.minute as u16, 2);
        text.append(":");
        push_padded(&mut text, self.second as u16, 2);
        proof {
            reveal_strlit("-");
            reveal_strlit(" ");
            reveal_strlit(":");
            assert("-"@ =~= seq!['-']);
            assert(" "@ =~= seq![' ']);
            assert(":"@ =~= seq![':']);
            assert(text@ =~= datetime_text(*self));
        }
        text
    }
}

} // verus!
