use vstd::prelude::*;

verus! {

use vstd::std_specs::iter::IteratorSpec;
use vstd::string::StringSliceAdditionalSpecFns;

broadcast use vstd::string::group_string_axioms;

/// Relies on `String::push`: appends one character at the end.
pub assume_specification[ String::push ](s: &mut String, c: char)
    ensures
        final(s)@ == old(s)@.push(c),
;

/// The decimal digits of `n`, most significant first.
pub open spec fn spec_dec_digits(n: nat) -> Seq<char>
    decreases n,
{
    if n < 10 {
        seq![spec_digit_char(n)]
    } else {
        spec_dec_digits(n / 10).push(spec_digit_char(n % 10))
    }
}

pub open spec fn spec_digit_char(d: nat) -> char {
    if d == 0 {
        '0'
    } else if d == 1 {
        '1'
    } else if d == 2 {
        '2'
    } else if d == 3 {
        '3'
    } else if d == 4 {
        '4'
    } else if d == 5 {
        '5'
    } else if d == 6 {
        '6'
    } else if d == 7 {
        '7'
    } else if d == 8 {
        '8'
    } else {
        '9'
    }
}

fn digit_char(d: usize) -> (c: char)
    requires
        d < 10,
    ensures
        c == spec_digit_char(d as nat),
{
    match d {
        0 => '0',
        1 => '1',
        2 => '2',
        3 => '3',
        4 => '4',
        5 => '5',
        6 => '6',
        7 => '7',
        8 => '8',
        _ => '9',
    }
}

/// Append the decimal rendering of `n` to `s`.
pub fn push_decimal(s: &mut String, n: u128)
    ensures
        final(s)@ == old(s)@ + spec_dec_digits(n as nat),
    decreases n,
{
    if n >= 10 {
        push_decimal(s, n / 10);
    }
    s.push(digit_char((n % 10) as usize));
    proof {
        assert(final(s)@ =~= old(s)@ + spec_dec_digits(n as nat));
    }
}

pub fn decimal_string(n: u128) -> (s: String)
    ensures
        s@ == spec_dec_digits(n as nat),
{
    let mut s = String::new();
    push_decimal(&mut s, n);
    proof {
        assert(s@ =~= spec_dec_digits(n as nat));
    }
    s
}

pub open spec fn spec_pow10(k: nat) -> nat
    decreases k,
{
    if k == 0 {
        1
    } else {
        10 * spec_pow10((k - 1) as nat)
    }
}

proof fn lemma_dec_digits_bounded(n: nat, k: nat)
    requires
        k >= 1,
        n < spec_pow10(k),
    ensures
        spec_dec_digits(n).len() <= k,
    decreases n,
{
    if n >= 10 {
        assert(spec_pow10(k) == 10 * spec_pow10((k - 1) as nat));
        assert(n / 10 < spec_pow10((k - 1) as nat));
        lemma_dec_digits_bounded(n / 10, (k - 1) as nat);
    }
}

proof fn lemma_dec_digits_len_u128(n: nat)
    requires
        n <= u128::MAX,
    ensures
        spec_dec_digits(n).len() <= 39,
{
    assert(u128::MAX < spec_pow10(39)) by {
        reveal_with_fuel(spec_pow10, 40);
    }
    lemma_dec_digits_bounded(n, 39);
}

/// How many characters the decimal rendering of `n` has; at most 39 for
/// a 128-bit value.
pub fn decimal_width(n: u128) -> (w: usize)
    ensures
        w == spec_dec_digits(n as nat).len(),
        w <= 39,
    decreases n,
{
    proof {
        lemma_dec_digits_len_u128(n as nat);
    }
    if n < 10 {
        1
    } else {
        let w = decimal_width(n / 10);
        proof {
            assert(spec_dec_digits(n as nat).len() == spec_dec_digits(
                (n / 10) as nat,
            ).len() + 1);
        }
        w + 1
    }
}

pub open spec fn spec_spaces(n: nat) -> Seq<char> {
    Seq::new(n, |i: int| ' ')
}

/// Append `n` spaces to `s`.
pub fn push_spaces(s: &mut String, n: usize)
    ensures
        final(s)@ == old(s)@ + spec_spaces(n as nat),
{
    let mut i: usize = 0;
    while i < n
        invariant
            i <= n,
            s@ == old(s)@ + spec_spaces(i as nat),
        decreases n - i,
    {
        s.push(' ');
        i = i + 1;
        proof {
            assert(s@ =~= old(s)@ + spec_spaces(i as nat));
        }
    }
}

/// Lexicographic order over sequences of chars, comparing code points.
pub open spec fn lex_lt(a: Seq<char>, b: Seq<char>) -> bool
    decreases a.len(),
{
    if b.len() == 0 {
        false
    } else if a.len() == 0 {
        true
    } else if (a[0] as u32) < (b[0] as u32) {
        true
    } else if (a[0] as u32) > (b[0] as u32) {
        false
    } else {
        lex_lt(a.drop_first(), b.drop_first())
    }
}

/// Relies on `str`'s `==`: strings are equal exactly when their
/// character sequences are.
#[verifier::external_body]
pub fn str_eq(a: &str, b: &str) -> (r: bool)
    ensures
        r == (a@ == b@),
{
    a == b
}

/// Relies on `str`'s `<`: strings are ordered lexicographically by the
/// bytes of their UTF-8 encoding, which orders them exactly as their
/// code-point sequences.
#[verifier::external_body]
pub fn str_lt(a: &str, b: &str) -> (r: bool)
    ensures
        r == lex_lt(a@, b@),
{
    a < b
}

/// Relies on `str`'s `<=`: the same order as `str_lt`, or equality.
#[verifier::external_body]
pub fn str_le(a: &str, b: &str) -> (r: bool)
    ensures
        r == (lex_lt(a@, b@) || a@ == b@),
{
    a <= b
}

/// `n` copies of `s`, concatenated.
pub open spec fn spec_repeat(s: Seq<char>, n: nat) -> Seq<char>
    decreases n,
{
    if n == 0 {
        Seq::<char>::empty()
    } else {
        s + spec_repeat(s, (n - 1) as nat)
    }
}

/// Relies on `str::repeat`: the result is `n` copies of `self`
/// concatenated. The precondition bounds the result's byte length,
/// whose overflow would make `str::repeat` panic.
#[verifier::external_body]
pub fn str_repeat(s: &str, n: usize) -> (r: String)
    requires
        (s.spec_bytes().len() as usize) * n <= usize::MAX,
    ensures
        r@ == spec_repeat(s@, n as nat),
{
    s.repeat(n)
}

/// The characters of `s`, in order, as a vector.
pub fn chars_of(s: &str) -> (v: Vec<char>)
    ensures
        v@ == s@,
{
    let mut it = s.chars();
    let mut v: Vec<char> = Vec::new();
    proof {
        assert(v@ + it.remaining() =~= s@);
    }
    loop
        invariant
            it.obeys_prophetic_iter_laws(),
            it.decrease() is Some,
            v@ + it.remaining() == s@,
        ensures
            v@ == s@,
        decreases it.decrease()->0,
    {
        let ghost prev = it;
        match it.next() {
            Some(c) => {
                v.push(c);
                proof {
                    assert(prev.remaining().len() > 0);
                    assert(v@ + it.remaining() =~= s@);
                }
            },
            None => {
                proof {
                    assert(it.remaining().len() == 0);
                    assert(v@ =~= s@);
                }
                break;
            },
        }
    }
    v
}

/// The width of the UTF-8 encoding of `c`, in bytes.
pub open spec fn spec_utf8_width(c: char) -> int {
    if (c as u32) < 0x80 {
        1
    } else if (c as u32) < 0x800 {
        2
    } else if (c as u32) < 0x10000 {
        3
    } else {
        4
    }
}

/// Byte offset of character `i` of `s` in the UTF-8 encoding of `s`.
pub open spec fn spec_char_byte_pos(s: Seq<char>, i: int) -> int
    decreases i,
{
    if i <= 0 {
        0
    } else {
        spec_char_byte_pos(s, i - 1) + spec_utf8_width(s[i - 1])
    }
}

pub fn utf8_width(c: char) -> (w: usize)
    ensures
        w == spec_utf8_width(c),
{
    let u = c as u32;
    if u < 0x80 {
        1
    } else if u < 0x800 {
        2
    } else if u < 0x10000 {
        3
    } else {
        4
    }
}

} // verus!
