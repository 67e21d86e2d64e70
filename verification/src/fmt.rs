//! Verified decimal rendering of integers, used for iteration numbers,
//! timestamps and exit codes in log records and command lines.

use vstd::prelude::*;
use vstd::string::StrSliceExecFns;
use vstd::string::StringExecFns;
use vstd::string::StringSliceAdditionalSpecFns;

verus! {

/// The character for one decimal digit.
pub open spec fn digit_char(d: int) -> char {
    if d == 0 {
        '0'
    } else if d == 1 {
        '1'
    } else if d == 2 {
        '2'
    } else if d == 3 {
        '3'
    } else if d == 4 {
        '4'
    } else if d == 5 {
        '5'
    } else if d == 6 {
        '6'
    } else if d == 7 {
        '7'
    } else if d == 8 {
        '8'
    } else {
        '9'
    }
}

/// The decimal digits of a non-negative integer, most significant first.
pub open spec fn spec_udecimal(n: int) -> Seq<char>
    recommends
        n >= 0,
    decreases n,
{
    if n < 10 {
        seq![digit_char(n)]
    } else {
        spec_udecimal(n / 10).push(digit_char(n % 10))
    }
}

/// The decimal rendering of an integer, with a leading minus sign when
/// negative.
pub open spec fn spec_decimal_int(n: int) -> Seq<char> {
    if n < 0 {
        seq!['-'] + spec_udecimal(-n)
    } else {
        spec_udecimal(n)
    }
}

fn digit_str(d: u64) -> (r: &'static str)
    requires
        d < 10,
    ensures
        r@ == seq![digit_char(d as int)],
{
    proof {
        reveal_strlit("0");
        reveal_strlit("1");
        reveal_strlit("2");
        reveal_strlit("3");
        reveal_strlit("4");
        reveal_strlit("5");
        reveal_strlit("6");
        reveal_strlit("7");
        reveal_strlit("8");
        reveal_strlit("9");
    }
    let r: &'static str = if d == 0 {
        "0"
    } else if d == 1 {
        "1"
    } else if d == 2 {
        "2"
    } else if d == 3 {
        "3"
    } else if d == 4 {
        "4"
    } else if d == 5 {
        "5"
    } else if d == 6 {
        "6"
    } else if d == 7 {
        "7"
    } else if d == 8 {
        "8"
    } else {
        "9"
    };
    proof {
        assert(r@ =~= seq![digit_char(d as int)]);
    }
    r
}

/// Renders `n` in decimal.
pub fn u64_to_string(n: u64) -> (r: String)
    ensures
        r@ == spec_udecimal(n as int),
    decreases n,
{
    if n < 10 {
        String::from_str(digit_str(n))
    } else {
        let mut r = u64_to_string(n / 10);
        r.append(digit_str(n % 10));
        proof {
            assert(spec_udecimal((n / 10) as int).push(digit_char((n % 10) as int))
                =~= spec_udecimal((n / 10) as int) + seq![digit_char((n % 10) as int)]);
        }
        r
    }
}

/// Renders `n` in decimal.
pub fn u32_to_string(n: u32) -> (r: String)
    ensures
        r@ == spec_udecimal(n as int),
{
    u64_to_string(n as u64)
}

/// Renders `n` in decimal, with a minus sign when negative.
pub fn i32_to_string(n: i32) -> (r: String)
    ensures
        r@ == spec_decimal_int(n as int),
{
    if n >= 0 {
        u64_to_string(n as u64)
    } else {
        let m: i64 = -(n as i64);
        let mut r = String::from_str("-");
        let digits = u64_to_string(m as u64);
        r.append(digits.as_str());
        proof {
            reveal_strlit("-");
            assert(r@ =~= seq!['-'] + spec_udecimal(-(n as int)));
        }
        r
    }
}

/// How the exit code of a finished process is written in the log:
/// `Some(code)` when the process exited with a code, `None` when it was
/// ended by a signal.
pub open spec fn spec_exit_code_text(code: Option<int>) -> Seq<char> {
    match code {
        Option::Some(v) => "Some("@ + spec_decimal_int(v) + ")"@,
        Option::None => "None"@,
    }
}

/// Renders an optional exit code as it appears in the log.
pub fn exit_code_to_string(code: &Option<i32>) -> (r: String)
    ensures
        r@ == spec_exit_code_text(match code {
            Option::Some(v) => Option::Some(*v as int),
            Option::None => Option::<int>::None,
        }),
{
    match code {
        Option::Some(v) => {
            let mut r = String::from_str("Some(");
            let digits = i32_to_string(*v);
            r.append(digits.as_str());
            r.append(")");
            r
        },
        Option::None => String::from_str("None"),
    }
}

/// Appends the UTF-8 bytes of `s` to `out`.
pub fn append_str_bytes(out: &mut Vec<u8>, s: &str)
    ensures
        final(out)@ == old(out)@ + s.spec_bytes(),
{
    let mut b = s.as_bytes_vec();
    out.append(&mut b);
}

/// Appends a copy of `other` to `out`.
pub fn append_bytes(out: &mut Vec<u8>, other: &Vec<u8>)
    ensures
        final(out)@ == old(out)@ + other@,
{
    out.extend_from_slice(other.as_slice());
}

} // verus!
