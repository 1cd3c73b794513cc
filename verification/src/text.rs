//! Decimal numerals, both as character strings (used for entry names) and as
//! byte buffers (used for sampled file content).

use vstd::prelude::*;

verus! {

/// The character for one decimal digit.
pub open spec fn spec_digit_char(d: int) -> char {
    if d == 0 {
        '0'
    } else if d == 1 {
        '1'
    } else if d == 2 {
        '2'
    } else if d == 3 {
        '3'
    } else if d == 4 {
        '4'
    } else if d == 5 {
        '5'
    } else if d == 6 {
        '6'
    } else if d == 7 {
        '7'
    } else if d == 8 {
        '8'
    } else {
        '9'
    }
}

/// The decimal numeral of `n`, most significant digit first, as characters.
pub open spec fn spec_dec_chars(n: nat) -> Seq<char>
    decreases n,
{
    if n < 10 {
        seq![spec_digit_char(n as int)]
    } else {
        spec_dec_chars(n / 10) + seq![spec_digit_char((n % 10) as int)]
    }
}

/// The ASCII byte for one decimal digit.
pub open spec fn spec_digit_byte(d: int) -> u8 {
    (48 + d) as u8
}

/// The decimal numeral of `n`, most significant digit first, as ASCII bytes.
pub open spec fn spec_dec_bytes(n: nat) -> Seq<u8>
    decreases n,
{
    if n < 10 {
        seq![spec_digit_byte(n as int)]
    } else {
        spec_dec_bytes(n / 10) + seq![spec_digit_byte((n % 10) as int)]
    }
}

fn digit_str(d: u8) -> (r: &'static str)
    requires
        d < 10,
    ensures
        r@ =~= seq![spec_digit_char(d as int)],
{
    proof {
        reveal_strlit("0");
        reveal_strlit("1");
        reveal_strlit("2");
        reveal_strlit("3");
        reveal_strlit("4");
        reveal_strlit("5");
        reveal_strlit("6");
        reveal_strlit("7");
        reveal_strlit("8");
        reveal_strlit("9");
    }
    match d {
        0 => "0",
        1 => "1",
        2 => "2",
        3 => "3",
        4 => "4",
        5 => "5",
        6 => "6",
        7 => "7",
        8 => "8",
        _ => "9",
    }
}

/// Appends the decimal numeral of `n` to `s`.
pub fn push_dec_chars(s: &mut String, n: u64)
    ensures
        final(s)@ == old(s)@ + spec_dec_chars(n as nat),
    decreases n,
{
    if n >= 10 {
        push_dec_chars(s, n / 10);
    }
    let d: u8 = (n % 10) as u8;
    s.append(digit_str(d));
    proof {
        if n < 10 {
            assert(s@ =~= old(s)@ + spec_dec_chars(n as nat));
        } else {
            assert(s@ =~= old(s)@ + spec_dec_chars(n as nat));
        }
    }
}

/// The decimal numeral of `n` as a `String`.
pub fn u64_to_string(n: u64) -> (r: String)
    ensures
        r@ == spec_dec_chars(n as nat),
{
    let mut s = String::new();
    push_dec_chars(&mut s, n);
    proof {
        assert(s@ =~= spec_dec_chars(n as nat));
    }
    s
}

/// Appends the decimal numeral of `n` to `v` as ASCII bytes.
pub fn push_dec_bytes(v: &mut Vec<u8>, n: u64)
    ensures
        final(v)@ == old(v)@ + spec_dec_bytes(n as nat),
    decreases n,
{
    if n >= 10 {
        push_dec_bytes(v, n / 10);
    }
    let d: u8 = (n % 10) as u8;
    v.push(48 + d);
    proof {
        assert(v@ =~= old(v)@ + spec_dec_bytes(n as nat));
    }
}

/// A non-empty run of ASCII decimal digits.
pub open spec fn is_dec_numeral(s: Seq<u8>) -> bool {
    s.len() >= 1 && forall|i: int| 0 <= i < s.len() ==> 48 <= #[trigger] s[i] <= 57
}

/// The decimal numeral of `n` as ASCII bytes.
pub fn u64_to_dec_bytes(n: u64) -> (r: Vec<u8>)
    ensures
        r@ == spec_dec_bytes(n as nat),
        is_dec_numeral(r@),
{
    let mut v: Vec<u8> = Vec::new();
    push_dec_bytes(&mut v, n);
    proof {
        assert(v@ =~= spec_dec_bytes(n as nat));
        lemma_dec_bytes_ascii_digits(n as nat);
    }
    v
}

/// Every byte of a decimal numeral is an ASCII digit.
pub proof fn lemma_dec_bytes_ascii_digits(n: nat)
    ensures
        spec_dec_bytes(n).len() >= 1,
        forall|i: int|
            0 <= i < spec_dec_bytes(n).len() ==> 48 <= #[trigger] spec_dec_bytes(n)[i] <= 57,
    decreases n,
{
    if n >= 10 {
        lemma_dec_bytes_ascii_digits(n / 10);
    }
}

proof fn lemma_digit_char_injective(a: int, b: int)
    requires
        0 <= a < 10,
        0 <= b < 10,
        a != b,
    ensures
        spec_digit_char(a) != spec_digit_char(b),
{
}

proof fn lemma_dec_chars_len(n: nat)
    ensures
        spec_dec_chars(n).len() >= 1,
        n >= 10 ==> spec_dec_chars(n).len() >= 2,
    decreases n,
{
    if n >= 10 {
        lemma_dec_chars_len(n / 10);
    }
}

/// Distinct numbers have distinct decimal numerals.
pub proof fn lemma_dec_chars_injective(a: nat, b: nat)
    requires
        a != b,
    ensures
        spec_dec_chars(a) != spec_dec_chars(b),
    decreases a + b,
{
    let sa = spec_dec_chars(a);
    let sb = spec_dec_chars(b);
    if a < 10 && b < 10 {
        lemma_digit_char_injective(a as int, b as int);
        assert(sa[0] != sb[0]);
    } else if a < 10 {
        lemma_dec_chars_len(b);
        assert(sa.len() == 1 && sb.len() >= 2);
    } else if b < 10 {
        lemma_dec_chars_len(a);
        assert(sa.len() >= 2 && sb.len() == 1);
    } else {
        if a % 10 != b % 10 {
            lemma_digit_char_injective((a % 10) as int, (b % 10) as int);
            assert(sa.last() != sb.last());
            assert(sa != sb) by {
                if sa == sb {
                    assert(sa.last() == sb.last());
                }
            }
        } else {
            assert(a / 10 != b / 10);
            lemma_dec_chars_injective(a / 10, b / 10);
            let pa = spec_dec_chars(a / 10);
            let pb = spec_dec_chars(b / 10);
            assert(sa != sb) by {
                if sa == sb {
                    assert(sa.len() == sb.len());
                    assert(pa.len() + 1 == sa.len());
                    assert(pb.len() + 1 == sb.len());
                    assert(pa =~= pb) by {
                        assert forall|i: int| 0 <= i < pa.len() implies pa[i] == pb[i] by {
                            assert(sa[i] == sb[i]);
                        }
                    }
                }
            }
        }
    }
}

} // verus!
