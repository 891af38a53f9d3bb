//! Fixed-width hexadecimal codec for identifier segments.
//!
//! Every atomic identifier travels on the wire as exactly 24 hexadecimal
//! characters (96 bits).  This module gives the encoding and decoding of one
//! such segment together with the lemmas that make the round trip exact.

use vstd::prelude::*;

verus! {

use vstd::arithmetic::div_mod::{lemma_div_denominator, lemma_mod_breakdown};

/// Value of a hexadecimal digit character; -1 when the character is no digit.
pub open spec fn hex_char_value(c: char) -> int {
    let u = c as int;
    if 48 <= u <= 57 {
        u - 48
    } else if 97 <= u <= 102 {
        u - 87
    } else if 65 <= u <= 70 {
        u - 55
    } else {
        -1
    }
}

pub open spec fn is_hex_digit(c: char) -> bool {
    hex_char_value(c) >= 0
}

/// Lower-case digit character for a value below 16.
pub open spec fn hex_digit_char(d: int) -> char {
    if d == 0 {
        '0'
    } else if d == 1 {
        '1'
    } else if d == 2 {
        '2'
    } else if d == 3 {
        '3'
    } else if d == 4 {
        '4'
    } else if d == 5 {
        '5'
    } else if d == 6 {
        '6'
    } else if d == 7 {
        '7'
    } else if d == 8 {
        '8'
    } else if d == 9 {
        '9'
    } else if d == 10 {
        'a'
    } else if d == 11 {
        'b'
    } else if d == 12 {
        'c'
    } else if d == 13 {
        'd'
    } else if d == 14 {
        'e'
    } else {
        'f'
    }
}

pub open spec fn pow16(n: nat) -> nat
    decreases n,
{
    if n == 0 {
        1
    } else {
        16 * pow16((n - 1) as nat)
    }
}

/// The `n` least significant hexadecimal digits of `v`, most significant first.
pub open spec fn hex_seq(v: nat, n: nat) -> Seq<char>
    decreases n,
{
    if n == 0 {
        Seq::empty()
    } else {
        hex_seq(v / 16, (n - 1) as nat) + seq![hex_digit_char((v % 16) as int)]
    }
}

/// Numeric value of a sequence of hexadecimal digit characters.
pub open spec fn hex_value(s: Seq<char>) -> nat
    decreases s.len(),
{
    if s.len() == 0 {
        0
    } else {
        (hex_value(s.drop_last()) * 16 + (if is_hex_digit(s.last()) {
            hex_char_value(s.last())
        } else {
            0
        })) as nat
    }
}

pub open spec fn all_hex(s: Seq<char>) -> bool {
    forall|i: int| 0 <= i < s.len() ==> is_hex_digit(#[trigger] s[i])
}

pub proof fn lemma_pow16_pos(n: nat)
    ensures
        pow16(n) >= 1,
    decreases n,
{
    if n > 0 {
        lemma_pow16_pos((n - 1) as nat);
    }
}

/// The full segment width covers exactly the 96-bit identifier space.
pub proof fn lemma_pow16_segment()
    ensures
        pow16(24) == 0x1000000000000000000000000,
{
    assert(pow16(24) == 0x1000000000000000000000000) by {
        reveal_with_fuel(pow16, 25);
    }
}

pub proof fn lemma_hex_seq_len(v: nat, n: nat)
    ensures
        hex_seq(v, n).len() == n,
        all_hex(hex_seq(v, n)),
    decreases n,
{
    if n > 0 {
        lemma_hex_seq_len(v / 16, (n - 1) as nat);
        let s = hex_seq(v, n);
        let inner = hex_seq(v / 16, (n - 1) as nat);
        assert(hex_char_value(hex_digit_char((v % 16) as int)) == v % 16);
        assert forall|i: int| 0 <= i < s.len() implies is_hex_digit(#[trigger] s[i]) by {
            if i < n - 1 {
                assert(s[i] == inner[i]);
            } else {
                assert(s[i] == hex_digit_char((v % 16) as int));
            }
        }
    }
}

/// Digit `i` counted from the least significant end sits at index `n - 1 - i`.
pub proof fn lemma_hex_seq_index(v: nat, n: nat, i: nat)
    requires
        i < n,
    ensures
        hex_seq(v, n).len() == n,
        hex_seq(v, n)[n - 1 - i] == hex_digit_char(((v / pow16(i)) % 16) as int),
    decreases n,
{
    lemma_hex_seq_len(v, n);
    let s = hex_seq(v, n);
    let inner = hex_seq(v / 16, (n - 1) as nat);
    if i == 0 {
        assert(s[n - 1] == hex_digit_char((v % 16) as int));
        assert(pow16(0) == 1);
    } else {
        lemma_hex_seq_index(v / 16, (n - 1) as nat, (i - 1) as nat);
        assert(s[n - 1 - i] == inner[(n - 1) - 1 - (i - 1)]);
        lemma_pow16_pos((i - 1) as nat);
        lemma_div_denominator(v as int, 16, pow16((i - 1) as nat) as int);
        assert(16 * pow16((i - 1) as nat) == pow16(i));
        assert((v / 16) / pow16((i - 1) as nat) == v / pow16(i));
    }
}

/// Decoding the encoding of `v` gives back `v` modulo the segment space.
pub proof fn lemma_hex_value_hex_seq(v: nat, n: nat)
    ensures
        hex_value(hex_seq(v, n)) == v % pow16(n),
    decreases n,
{
    if n == 0 {
        assert(pow16(0) == 1);
        assert(v % 1 == 0nat);
    } else {
        let s = hex_seq(v, n);
        let inner = hex_seq(v / 16, (n - 1) as nat);
        lemma_hex_seq_len(v / 16, (n - 1) as nat);
        assert(s.drop_last() =~= inner);
        assert(s.last() == hex_digit_char((v % 16) as int));
        assert(hex_char_value(hex_digit_char((v % 16) as int)) == v % 16);
        lemma_hex_value_hex_seq(v / 16, (n - 1) as nat);
        lemma_pow16_pos((n - 1) as nat);
        lemma_mod_breakdown(v as int, 16, pow16((n - 1) as nat) as int);
        assert(16 * pow16((n - 1) as nat) == pow16(n));
        assert(hex_value(s) == hex_value(inner) * 16 + v % 16);
        assert(v % pow16(n) == 16 * ((v / 16) % pow16((n - 1) as nat)) + v % 16);
    }
}

/// Appending a digit multiplies the decoded value by the base.
pub proof fn lemma_hex_value_push(s: Seq<char>, c: char)
    ensures
        hex_value(s.push(c)) == hex_value(s) * 16 + (if is_hex_digit(c) {
            hex_char_value(c)
        } else {
            0
        }),
{
    let t = s.push(c);
    assert(t.drop_last() =~= s);
    assert(t.last() == c);
}

/// One lower-case hexadecimal digit as a borrowed string.
pub fn hex_digit_str(d: u8) -> (r: &'static str)
    requires
        d < 16,
    ensures
        r@ =~= seq![hex_digit_char(d as int)],
{
    proof {
        reveal_strlit("0");
        reveal_strlit("1");
        reveal_strlit("2");
        reveal_strlit("3");
        reveal_strlit("4");
        reveal_strlit("5");
        reveal_strlit("6");
        reveal_strlit("7");
        reveal_strlit("8");
        reveal_strlit("9");
        reveal_strlit("a");
        reveal_strlit("b");
        reveal_strlit("c");
        reveal_strlit("d");
        reveal_strlit("e");
        reveal_strlit("f");
    }
    match d {
        0 => "0",
        1 => "1",
        2 => "2",
        3 => "3",
        4 => "4",
        5 => "5",
        6 => "6",
        7 => "7",
        8 => "8",
        9 => "9",
        10 => "a",
        11 => "b",
        12 => "c",
        13 => "d",
        14 => "e",
        _ => "f",
    }
}

/// Value of one hexadecimal digit character, accepting both cases.
pub fn hex_digit_val(c: char) -> (r: Option<u8>)
    ensures
        match r {
            Some(d) => is_hex_digit(c) && d == hex_char_value(c) && d < 16,
            None => !is_hex_digit(c),
        },
{
    let u = c as u32;
    if 48 <= u && u <= 57 {
        Some((u - 48) as u8)
    } else if 97 <= u && u <= 102 {
        Some((u - 87) as u8)
    } else if 65 <= u && u <= 70 {
        Some((u - 55) as u8)
    } else {
        None
    }
}

/// Append the 24-character encoding of `v` to `out`.
pub fn append_hex24(out: &mut String, v: u128)
    ensures
        final(out)@ == old(out)@ + hex_seq(v as nat, 24),
{
    let ghost vn: nat = v as nat;
    let mut digits: Vec<u8> = Vec::new();
    let mut x: u128 = v;
    let mut k: usize = 0;
    proof {
        lemma_pow16_pos(0);
        assert(pow16(0) == 1);
        assert(vn / 1 == vn);
    }
    while k < 24
        invariant
            k <= 24,
            digits@.len() == k,
            x as nat == vn / pow16(k as nat),
            forall|i: int|
                0 <= i < k ==> #[trigger] digits@[i] as nat == (vn / pow16(i as nat)) % 16
                    && digits@[i] < 16,
        decreases 24 - k,
    {
        let d = (x % 16) as u8;
        proof {
            lemma_pow16_pos(k as nat);
            lemma_div_denominator(vn as int, pow16(k as nat) as int, 16);
            assert(pow16(k as nat) * 16 == 16 * pow16(k as nat));
            assert(16 * pow16(k as nat) == pow16((k + 1) as nat));
            assert((x as nat) / 16 == vn / pow16((k + 1) as nat));
        }
        digits.push(d);
        x = x / 16;
        k = k + 1;
    }
    let ghost pre: Seq<char> = old(out)@;
    let ghost target: Seq<char> = hex_seq(vn, 24);
    proof {
        lemma_hex_seq_len(vn, 24);
    }
    let mut j: usize = 24;
    while j > 0
        invariant
            j <= 24,
            digits@.len() == 24,
            forall|i: int|
                0 <= i < 24 ==> #[trigger] digits@[i] as nat == (vn / pow16(i as nat)) % 16
                    && digits@[i] < 16,
            target.len() == 24,
            target == hex_seq(vn, 24),
            out@ =~= pre + target.subrange(0, 24 - j),
        decreases j,
    {
        j = j - 1;
        proof {
            lemma_hex_seq_index(vn, 24, j as nat);
            assert(target[24 - 1 - j] == hex_digit_char((digits@[j as int]) as int));
        }
        let s = hex_digit_str(digits[j]);
        out.append(s);
        proof {
            assert(out@ =~= pre + target.subrange(0, 24 - j));
        }
    }
    proof {
        assert(target.subrange(0, 24) =~= target);
    }
}

/// Decode the 24-character segment of `s` that starts at `off`.
///
/// Fails exactly when some character of the segment is no hexadecimal digit.
pub fn parse_hex24_at(s: &str, off: usize) -> (r: Option<u128>)
    requires
        off + 24 <= s@.len(),
        s@.len() <= usize::MAX,
    ensures
        match r {
            Some(v) => all_hex(s@.subrange(off as int, off + 24)) && v as nat == hex_value(
                s@.subrange(off as int, off + 24),
            ) && (v as nat) < pow16(24),
            None => !all_hex(s@.subrange(off as int, off + 24)),
        },
{
    let ghost seg: Seq<char> = s@.subrange(off as int, off + 24);
    let mut acc: u128 = 0;
    let mut i: usize = 0;
    proof {
        lemma_pow16_segment();
    }
    while i < 24
        invariant
            i <= 24,
            off + 24 <= s@.len(),
            s@.len() <= usize::MAX,
            seg == s@.subrange(off as int, off + 24),
            acc as nat == hex_value(seg.subrange(0, i as int)),
            (acc as nat) < pow16(i as nat),
            pow16(24) == 0x1000000000000000000000000,
            all_hex(seg.subrange(0, i as int)),
        decreases 24 - i,
    {
        let c = s.get_char(off + i);
        proof {
            assert(seg[i as int] == s@[off + i]);
        }
        match hex_digit_val(c) {
            None => {
                proof {
                    assert(!is_hex_digit(seg[i as int]));
                }
                return None;
            },
            Some(d) => {
                proof {
                    lemma_hex_value_push(seg.subrange(0, i as int), c);
                    assert(seg.subrange(0, i as int).push(c) =~= seg.subrange(0, i + 1));
                    assert(pow16((i + 1) as nat) == 16 * pow16(i as nat));
                    lemma_pow16_mono(i as nat, 24);
                }
                acc = acc * 16 + (d as u128);
                i = i + 1;
            },
        }
    }
    proof {
        assert(seg.subrange(0, 24) =~= seg);
    }
    Some(acc)
}

pub proof fn lemma_pow16_mono(m: nat, n: nat)
    requires
        m <= n,
    ensures
        pow16(m) <= pow16(n),
    decreases n,
{
    if m < n {
        lemma_pow16_mono(m, (n - 1) as nat);
        lemma_pow16_pos((n - 1) as nat);
        assert(pow16(n) == 16 * pow16((n - 1) as nat));
    }
}

} // verus!
