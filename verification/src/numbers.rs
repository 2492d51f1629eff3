//! Rendering integers as decimal text and parsing integer literals, with
//! their mathematical definitions.

use vstd::prelude::*;

use crate::runtime::types::utilities::chars_to_string;

verus! {

/// The character of a decimal digit.
pub open spec fn digit_char(d: nat) -> char {
    if d == 0 {
        '0'
    } else if d == 1 {
        '1'
    } else if d == 2 {
        '2'
    } else if d == 3 {
        '3'
    } else if d == 4 {
        '4'
    } else if d == 5 {
        '5'
    } else if d == 6 {
        '6'
    } else if d == 7 {
        '7'
    } else if d == 8 {
        '8'
    } else {
        '9'
    }
}

/// The decimal digits of a natural number, most significant first.
pub open spec fn dec_digits(n: nat) -> Seq<char>
    decreases n,
{
    if n < 10 {
        seq![digit_char(n)]
    } else {
        dec_digits(n / 10).push(digit_char(n % 10))
    }
}

/// The decimal rendering of an integer.
pub open spec fn int_text(i: i64) -> Seq<char> {
    if i < 0 {
        seq!['-'] + dec_digits((-(i as int)) as nat)
    } else {
        dec_digits(i as nat)
    }
}

/// The numeric value of a digit character in the given radix, if it is one.
/// Radices up to 16 are understood; letter digits may be of either case.
pub open spec fn digit_val(c: char, radix: nat) -> Option<nat> {
    let v: Option<nat> = if c == '0' {
        Some(0nat)
    } else if c == '1' {
        Some(1nat)
    } else if c == '2' {
        Some(2nat)
    } else if c == '3' {
        Some(3nat)
    } else if c == '4' {
        Some(4nat)
    } else if c == '5' {
        Some(5nat)
    } else if c == '6' {
        Some(6nat)
    } else if c == '7' {
        Some(7nat)
    } else if c == '8' {
        Some(8nat)
    } else if c == '9' {
        Some(9nat)
    } else if c == 'a' || c == 'A' {
        Some(10nat)
    } else if c == 'b' || c == 'B' {
        Some(11nat)
    } else if c == 'c' || c == 'C' {
        Some(12nat)
    } else if c == 'd' || c == 'D' {
        Some(13nat)
    } else if c == 'e' || c == 'E' {
        Some(14nat)
    } else if c == 'f' || c == 'F' {
        Some(15nat)
    } else {
        None
    };
    match v {
        Some(d) => if d < radix {
            Some(d)
        } else {
            None
        },
        None => None,
    }
}

/// Whether every character of the sequence is a digit in the given radix.
pub open spec fn all_digits(s: Seq<char>, radix: nat) -> bool {
    forall|i: int| 0 <= i < s.len() ==> digit_val(s[i], radix) is Some
}

/// The numeric value of a sequence of digits in the given radix, most
/// significant first.
pub open spec fn num_val(s: Seq<char>, radix: nat) -> nat
    decreases s,
{
    if s.len() == 0 {
        0
    } else {
        num_val(s.drop_last(), radix) * radix + (match digit_val(s.last(), radix) {
            Some(d) => d,
            None => 0,
        })
    }
}

/// The value that parsing the text as an unsigned 64-bit decimal number
/// yields: an optional leading plus sign, then at least one digit, and a
/// value within range; `None` otherwise.
pub open spec fn parse_u64_spec(s: Seq<char>) -> Option<u64> {
    let t = if s.len() > 0 && s[0] == '+' {
        s.drop_first()
    } else {
        s
    };
    if t.len() == 0 || !all_digits(t, 10) || num_val(t, 10) > u64::MAX {
        None
    } else {
        Some(num_val(t, 10) as u64)
    }
}

/// A digit sequence is worth at least its prefix of any length.
pub proof fn lemma_num_val_prefix(s: Seq<char>, j: int, radix: nat)
    requires
        0 <= j <= s.len(),
        radix >= 1,
    ensures
        num_val(s, radix) >= num_val(s.take(j), radix),
    decreases s.len() - j,
{
    if j < s.len() {
        lemma_num_val_prefix(s, j + 1, radix);
        assert(s.take(j + 1).drop_last() =~= s.take(j));
        assert(num_val(s.take(j + 1), radix) >= num_val(s.take(j), radix) * radix) by (
        nonlinear_arith)
            requires
                num_val(s.take(j + 1), radix) == num_val(s.take(j), radix) * radix + (
                match digit_val(s.take(j + 1).last(), radix) {
                    Some(d) => d,
                    None => 0,
                }),
                radix >= 1,
        ;
        assert(num_val(s.take(j), radix) * radix >= num_val(s.take(j), radix)) by (
        nonlinear_arith)
            requires
                radix >= 1,
        ;
    } else {
        assert(s.take(j) =~= s);
    }
}

/// The digit character of a value below ten.
pub fn digit_char_exec(d: u64) -> (r: char)
    requires
        d < 10,
    ensures
        r == digit_char(d as nat),
{
    if d == 0 {
        '0'
    } else if d == 1 {
        '1'
    } else if d == 2 {
        '2'
    } else if d == 3 {
        '3'
    } else if d == 4 {
        '4'
    } else if d == 5 {
        '5'
    } else if d == 6 {
        '6'
    } else if d == 7 {
        '7'
    } else if d == 8 {
        '8'
    } else {
        '9'
    }
}

/// Append the decimal digits of a natural number, most significant first.
fn push_digits(n: u64, out: &mut Vec<char>)
    ensures
        final(out)@ == old(out)@ + dec_digits(n as nat),
    decreases n,
{
    if n < 10 {
        out.push(digit_char_exec(n));
        proof {
            assert(out@ =~= old(out)@ + dec_digits(n as nat));
        }
    } else {
        push_digits(n / 10, out);
        out.push(digit_char_exec(n % 10));
        proof {
            assert(out@ =~= old(out)@ + dec_digits(n as nat));
        }
    }
}

/// Render an integer as decimal text.
pub fn int_to_text(i: i64) -> (r: String)
    ensures
        r@ == int_text(i),
{
    let mut out: Vec<char> = Vec::new();
    if i < 0 {
        out.push('-');
        let magnitude: u64 = (-(i as i128)) as u64;
        proof {
            assert(magnitude == (-(i as int)) as nat);
        }
        push_digits(magnitude, &mut out);
        proof {
            assert(out@ =~= int_text(i));
        }
    } else {
        push_digits(i as u64, &mut out);
        proof {
            assert(out@ =~= int_text(i));
        }
    }
    chars_to_string(out)
}

/// The numeric value of a digit character in the given radix, if it is one.
pub fn digit_val_exec(c: char, radix: u64) -> (r: Option<u64>)
    requires
        radix <= 16,
    ensures
        match r {
            Some(d) => digit_val(c, radix as nat) == Some(d as nat) && d < radix,
            None => digit_val(c, radix as nat) is None,
        },
{
    let v: Option<u64> = match c {
        '0' => Some(0u64),
        '1' => Some(1u64),
        '2' => Some(2u64),
        '3' => Some(3u64),
        '4' => Some(4u64),
        '5' => Some(5u64),
        '6' => Some(6u64),
        '7' => Some(7u64),
        '8' => Some(8u64),
        '9' => Some(9u64),
        'a' | 'A' => Some(10u64),
        'b' | 'B' => Some(11u64),
        'c' | 'C' => Some(12u64),
        'd' | 'D' => Some(13u64),
        'e' | 'E' => Some(14u64),
        'f' | 'F' => Some(15u64),
        _ => None,
    };
    match v {
        Some(d) => if d < radix {
            Some(d)
        } else {
            None
        },
        None => None,
    }
}

/// The value of the digit characters `s[from..to]` in the given radix:
/// `None` if the range is empty, holds a non-digit, or overflows a `u64`.
pub fn parse_digits(s: &Vec<char>, from: usize, to: usize, radix: u64) -> (r: Option<u64>)
    requires
        from <= to <= s@.len(),
        2 <= radix <= 16,
    ensures
        match r {
            Some(v) => all_digits(s@.subrange(from as int, to as int), radix as nat) && v
                == num_val(s@.subrange(from as int, to as int), radix as nat) && from < to,
            None => from == to || !all_digits(s@.subrange(from as int, to as int), radix as nat)
                || num_val(s@.subrange(from as int, to as int), radix as nat) > u64::MAX,
        },
{
    if from == to {
        proof {
            assert(s@.subrange(from as int, to as int) =~= Seq::<char>::empty());
        }
        return None;
    }
    let ghost whole = s@.subrange(from as int, to as int);
    let mut v: u64 = 0;
    let mut j: usize = from;
    while j < to
        invariant
            from <= j <= to <= s@.len(),
            whole == s@.subrange(from as int, to as int),
            2 <= radix <= 16,
            all_digits(whole.take(j - from), radix as nat),
            v == num_val(whole.take(j - from), radix as nat),
        decreases to - j,
    {
        let d = match digit_val_exec(s[j], radix) {
            Some(d) => d,
            None => {
                proof {
                    assert(whole[j - from] == s@[j as int]);
                    assert(!all_digits(whole, radix as nat));
                }
                return None;
            },
        };
        proof {
            assert(whole.take(j - from + 1).drop_last() =~= whole.take(j - from));
            assert(whole.take(j - from + 1).last() == s@[j as int]);
        }
        if v > (u64::MAX - d) / radix {
            proof {
                let part = whole.take(j - from + 1);
                assert(num_val(part, radix as nat) == v * radix + d);
                assert(v * radix + d > u64::MAX) by (nonlinear_arith)
                    requires
                        v as int > ((u64::MAX - d) as int) / (radix as int),
                        2 <= radix <= 16,
                        d < radix,
                ;
                if all_digits(whole, radix as nat) {
                    lemma_num_val_prefix(whole, j - from + 1, radix as nat);
                }
            }
            return None;
        }
        proof {
            assert(v * radix + d <= u64::MAX) by (nonlinear_arith)
                requires
                    v as int <= ((u64::MAX - d) as int) / (radix as int),
                    2 <= radix <= 16,
                    d < radix,
            ;
        }
        v = v * radix + d;
        j = j + 1;
    }
    proof {
        assert(whole.take(to - from) =~= whole);
    }
    Some(v)
}

/// Parse the text as an unsigned 64-bit decimal number: an optional leading
/// plus sign, then at least one digit, within range.
pub fn parse_u64_exec(s: &Vec<char>) -> (r: Option<u64>)
    ensures
        r == parse_u64_spec(s@),
{
    let start: usize = if s.len() > 0 && s[0] == '+' {
        1
    } else {
        0
    };
    proof {
        if s@.len() > 0 && s@[0] == '+' {
            assert(s@.subrange(1, s@.len() as int) =~= s@.drop_first());
        } else {
            assert(s@.subrange(0, s@.len() as int) =~= s@);
        }
    }
    parse_digits(s, start, s.len(), 10)
}

} // verus!
