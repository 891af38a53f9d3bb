//! Decimal rendering of configuration numbers.

use vstd::prelude::*;

verus! {

/// Digit character for a value below 10.
pub open spec fn dec_digit_char(d: int) -> char {
    if d == 0 {
        '0'
    } else if d == 1 {
        '1'
    } else if d == 2 {
        '2'
    } else if d == 3 {
        '3'
    } else if d == 4 {
        '4'
    } else if d == 5 {
        '5'
    } else if d == 6 {
        '6'
    } else if d == 7 {
        '7'
    } else if d == 8 {
        '8'
    } else {
        '9'
    }
}

/// The decimal rendering of `v`, without leading zeroes (`0` stays `0`).
pub open spec fn dec_seq(v: nat) -> Seq<char>
    decreases v,
{
    if v < 10 {
        seq![dec_digit_char(v as int)]
    } else {
        dec_seq(v / 10) + seq![dec_digit_char((v % 10) as int)]
    }
}

/// The rendering of a digit stack, least significant digit first.
pub open spec fn dec_tail(digits: Seq<u8>) -> Seq<char> {
    Seq::new(digits.len(), |i: int| dec_digit_char(digits[digits.len() - 1 - i] as int))
}

/// Pushing a digit onto the stack prepends its character.
proof fn lemma_dec_tail_push(digits: Seq<u8>, d: u8)
    ensures
        dec_tail(digits.push(d)) =~= seq![dec_digit_char(d as int)] + dec_tail(digits),
{
}

/// One decimal digit as a borrowed string.
fn dec_digit_str(d: u8) -> (r: &'static str)
    requires
        d < 10,
    ensures
        r@ =~= seq![dec_digit_char(d as int)],
{
    proof {
        reveal_strlit("0");
        reveal_strlit("1");
        reveal_strlit("2");
        reveal_strlit("3");
        reveal_strlit("4");
        reveal_strlit("5");
        reveal_strlit("6");
        reveal_strlit("7");
        reveal_strlit("8");
        reveal_strlit("9");
    }
    match d {
        0 => "0",
        1 => "1",
        2 => "2",
        3 => "3",
        4 => "4",
        5 => "5",
        6 => "6",
        7 => "7",
        8 => "8",
        _ => "9",
    }
}

/// Append the decimal rendering of `v` to `out`.
pub fn append_dec(out: &mut String, v: u64)
    ensures
        final(out)@ == old(out)@ + dec_seq(v as nat),
{
    let mut digits: Vec<u8> = Vec::new();
    let mut x: u64 = v;
    loop
        invariant_except_break
            digits@.len() == 0 ==> x == v,
            digits@.len() >= 1 ==> x != 0 && dec_seq(v as nat) =~= dec_seq(x as nat) + dec_tail(
                digits@,
            ),
            forall|i: int| 0 <= i < digits@.len() ==> #[trigger] digits@[i] < 10,
        ensures
            dec_seq(v as nat) =~= dec_tail(digits@),
            forall|i: int| 0 <= i < digits@.len() ==> #[trigger] digits@[i] < 10,
        decreases x, (if digits@.len() == 0 { 1int } else { 0int }),
    {
        let ghost pre = digits@;
        let d = (x % 10) as u8;
        let next = x / 10;
        proof {
            lemma_dec_tail_push(pre, d);
            if pre.len() == 0 {
                if next == 0 {
                    assert(dec_seq(v as nat) =~= dec_tail(pre.push(d)));
                } else {
                    assert(dec_seq(v as nat) =~= dec_seq(next as nat) + dec_tail(pre.push(d)));
                }
            } else {
                if next == 0 {
                    assert(dec_seq(x as nat) =~= seq![dec_digit_char(d as int)]);
                    assert(dec_seq(v as nat) =~= dec_tail(pre.push(d)));
                } else {
                    assert(dec_seq(x as nat) =~= dec_seq(next as nat) + seq![
                        dec_digit_char(d as int),
                    ]);
                    assert(dec_seq(v as nat) =~= dec_seq(next as nat) + dec_tail(pre.push(d)));
                }
            }
        }
        digits.push(d);
        x = next;
        if x == 0 {
            break;
        }
    }
    let ghost target = dec_seq(v as nat);
    let ghost pre_out = old(out)@;
    proof {
        assert(target == dec_tail(digits@));
        assert(target.len() == digits@.len());
    }
    let mut j: usize = digits.len();
    while j > 0
        invariant
            j <= digits@.len(),
            target == dec_tail(digits@),
            target.len() == digits@.len(),
            forall|i: int| 0 <= i < digits@.len() ==> #[trigger] digits@[i] < 10,
            out@ =~= pre_out + target.subrange(0, digits@.len() - j),
        decreases j,
    {
        j = j - 1;
        proof {
            assert(target[digits@.len() - 1 - j] == dec_digit_char(digits@[j as int] as int));
        }
        out.append(dec_digit_str(digits[j]));
        proof {
            assert(out@ =~= pre_out + target.subrange(0, digits@.len() - j));
        }
    }
    proof {
        assert(target.subrange(0, target.len() as int) =~= target);
    }
}

/// The decimal rendering of `v` as an owned string.
pub fn dec_string(v: u64) -> (r: String)
    ensures
        r@ == dec_seq(v as nat),
{
    let mut out = String::new();
    append_dec(&mut out, v);
    out
}

} // verus!
