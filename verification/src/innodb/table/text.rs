//! Decimal text, as dates and times are written.
use vstd::prelude::*;

verus! {

/// The character of a decimal digit.
pub open spec fn digit_char(d: nat) -> char {
    if d == 0 {
        '0'
    } else if d == 1 {
        '1'
    } else if d == 2 {
        '2'
    } else if d == 3 {
        '3'
    } else if d == 4 {
        '4'
    } else if d == 5 {
        '5'
    } else if d == 6 {
        '6'
    } else if d == 7 {
        '7'
    } else if d == 8 {
        '8'
    } else {
        '9'
    }
}

/// The decimal digits of `n`, without leading zeros.
pub open spec fn decimal(n: nat) -> Seq<char>
    decreases n,
{
    if n < 10 {
        seq![digit_char(n)]
    } else {
        decimal(n / 10).push(digit_char(n % 10))
    }
}

/// `count` zeros.
pub open spec fn zeros(count: nat) -> Seq<char> {
    Seq::new(count, |i: int| '0')
}

/// The decimal digits of `n`, with zeros in front of them up to `width` characters.
pub open spec fn zero_padded(n: nat, width: nat) -> Seq<char> {
    let digits = decimal(n);
    if digits.len() >= width {
        digits
    } else {
        zeros((width - digits.len()) as nat) + digits
    }
}

/// A signed number in `width` characters: a negative one has its sign first, and
/// zeros fill what is left of the width.
pub open spec fn signed_zero_padded(v: int, width: nat) -> Seq<char> {
    if v < 0 {
        seq!['-'] + zero_padded((-v) as nat, (width - 1) as nat)
    } else {
        zero_padded(v as nat, width)
    }
}

/// A date as `YYYY-MM-DD`.
pub open spec fn date_text(year: int, month: nat, day: nat) -> Seq<char> {
    signed_zero_padded(year, 4) + seq!['-'] + zero_padded(month, 2) + seq!['-'] + zero_padded(
        day,
        2,
    )
}

/// A time of day as `HH:MM:SS`.
pub open spec fn time_text(hour: nat, minute: nat, second: nat) -> Seq<char> {
    zero_padded(hour, 2) + seq![':'] + zero_padded(minute, 2) + seq![':'] + zero_padded(second, 2)
}

/// A date and a time as `YYYY-MM-DD HH:MM:SS`.
pub open spec fn datetime_text(
    year: int,
    month: nat,
    day: nat,
    hour: nat,
    minute: nat,
    second: nat,
) -> Seq<char> {
    date_text(year, month, day) + seq![' '] + time_text(hour, minute, second)
}

fn digit_str(d: u64) -> (r: &'static str)
    requires
        d < 10,
    ensures
        r@ == seq![digit_char(d as nat)],
{
    proof {
        reveal_strlit("0");
        reveal_strlit("1");
        reveal_strlit("2");
        reveal_strlit("3");
        reveal_strlit("4");
        reveal_strlit("5");
        reveal_strlit("6");
        reveal_strlit("7");
        reveal_strlit("8");
        reveal_strlit("9");
    }
    let r = if d == 0 {
        "0"
    } else if d == 1 {
        "1"
    } else if d == 2 {
        "2"
    } else if d == 3 {
        "3"
    } else if d == 4 {
        "4"
    } else if d == 5 {
        "5"
    } else if d == 6 {
        "6"
    } else if d == 7 {
        "7"
    } else if d == 8 {
        "8"
    } else {
        "9"
    };
    assert(r@ =~= seq![digit_char(d as nat)]);
    r
}

/// Appends the decimal digits of `n`.
pub fn append_decimal(out: &mut String, n: u64)
    ensures
        final(out)@ == old(out)@ + decimal(n as nat),
    decreases n,
{
    if n >= 10 {
        append_decimal(out, n / 10);
    }
    out.append(digit_str(n % 10));
    assert(out@ =~= old(out)@ + decimal(n as nat));
}

/// The number of decimal digits of `n`.
pub fn decimal_len(n: u64) -> (r: u64)
    ensures
        r == decimal(n as nat).len(),
        1 <= r <= n / 10 + 1,
    decreases n,
{
    if n >= 10 {
        decimal_len(n / 10) + 1
    } else {
        1
    }
}

/// Appends the decimal digits of `n`, with zeros in front of them up to `width`
/// characters.
pub fn append_zero_padded(out: &mut String, n: u64, width: u64)
    ensures
        final(out)@ == old(out)@ + zero_padded(n as nat, width as nat),
{
    let len = decimal_len(n);
    let mut k: u64 = len;
    while k < width
        invariant
            len <= k,
            len < width ==> k <= width,
            len >= width ==> k == len,
            out@ == old(out)@ + zeros((k - len) as nat),
        decreases width - k,
    {
        proof {
            reveal_strlit("0");
        }
        out.append("0");
        k += 1;
        assert(out@ =~= old(out)@ + zeros((k - len) as nat));
    }
    append_decimal(out, n);
    assert(out@ =~= old(out)@ + zero_padded(n as nat, width as nat));
}

/// Appends a signed number in `width` characters.
pub fn append_signed_zero_padded(out: &mut String, v: i64, width: u64)
    requires
        width >= 1,
    ensures
        final(out)@ == old(out)@ + signed_zero_padded(v as int, width as nat),
{
    if v < 0 {
        proof {
            reveal_strlit("-");
        }
        out.append("-");
        let magnitude: u64 = (-(v as i128)) as u64;
        append_zero_padded(out, magnitude, width - 1);
        assert(out@ =~= old(out)@ + signed_zero_padded(v as int, width as nat));
    } else {
        append_zero_padded(out, v as u64, width);
    }
}

/// Writes a date as `YYYY-MM-DD`.
pub fn format_date(year: i64, month: u64, day: u64) -> (r: String)
    ensures
        r@ == date_text(year as int, month as nat, day as nat),
{
    proof {
        reveal_strlit("-");
    }
    let mut out = String::new();
    append_signed_zero_padded(&mut out, year, 4);
    out.append("-");
    append_zero_padded(&mut out, month, 2);
    out.append("-");
    append_zero_padded(&mut out, day, 2);
    assert(out@ =~= date_text(year as int, month as nat, day as nat));
    out
}

/// Writes a date and a time as `YYYY-MM-DD HH:MM:SS`.
pub fn format_datetime(year: u64, month: u64, day: u64, hour: u64, minute: u64, second: u64) -> (r:
    String)
    requires
        year <= i64::MAX,
    ensures
        r@ == datetime_text(
            year as int,
            month as nat,
            day as nat,
            hour as nat,
            minute as nat,
            second as nat,
        ),
{
    proof {
        reveal_strlit(" ");
        reveal_strlit(":");
    }
    let mut out = format_date(year as i64, month, day);
    out.append(" ");
    append_zero_padded(&mut out, hour, 2);
    out.append(":");
    append_zero_padded(&mut out, minute, 2);
    out.append(":");
    append_zero_padded(&mut out, second, 2);
    assert(out@ =~= datetime_text(
        year as int,
        month as nat,
        day as nat,
        hour as nat,
        minute as nat,
        second as nat,
    ));
    out
}

} // verus!
