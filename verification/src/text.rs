//! String helpers: prefix test, decimal formatting, UTF-8 decoding and
//! trimming.
use vstd::prelude::*;
use vstd::string::StringExecFns;
use vstd::utf8::{decode_utf8, valid_utf8};

verus! {

broadcast use vstd::string::group_string_axioms;

/// Whether `s` begins with the characters of `prefix`.
pub open spec fn has_prefix(s: Seq<char>, prefix: Seq<char>) -> bool {
    prefix.len() <= s.len() && s.take(prefix.len() as int) == prefix
}

/// Whether `s` begins with the characters in `prefix`.
pub fn starts_with_chars(s: &str, prefix: &[char]) -> (r: bool)
    ensures
        r == has_prefix(s@, prefix@),
{
    let mut it = s.chars();
    let mut i: usize = 0;
    while i < prefix.len()
        invariant
            i <= prefix.len(),
            i <= s@.len(),
            vstd::std_specs::iter::IteratorSpec::remaining(&it) == s@.skip(i as int),
            s@.take(i as int) == prefix@.take(i as int),
        decreases prefix.len() - i,
    {
        let ghost before = vstd::std_specs::iter::IteratorSpec::remaining(&it);
        match it.next() {
            None => {
                assert(before.len() == 0);
                assert(!has_prefix(s@, prefix@));
                return false;
            },
            Some(c) => {
                assert(c == s@[i as int]);
                if c != prefix[i] {
                    assert(!has_prefix(s@, prefix@)) by {
                        if prefix@.len() <= s@.len() {
                            assert(s@.take(prefix@.len() as int)[i as int] == s@[i as int]);
                        }
                    }
                    return false;
                }
                assert(s@.take(i + 1) =~= s@.take(i as int).push(c));
                assert(prefix@.take(i + 1) =~= prefix@.take(i as int).push(prefix@[i as int]));
                assert(vstd::std_specs::iter::IteratorSpec::remaining(&it) =~= s@.skip(i + 1));
            },
        }
        i += 1;
    }
    assert(prefix@.take(i as int) =~= prefix@);
    true
}

/// The string that `bytes` encode, if they are valid UTF-8.
///
/// Calls `String::from_utf8`, which takes the bytes as they are when they are
/// valid UTF-8 and fails otherwise; the contract claims exactly that, in the
/// terms of vstd's UTF-8 model.
#[verifier::external_body]
pub(crate) fn utf8_string(bytes: Vec<u8>) -> (r: Option<String>)
    ensures
        match r {
            Some(s) => valid_utf8(bytes@) && s@ == decode_utf8(bytes@),
            None => !valid_utf8(bytes@),
        },
{
    match String::from_utf8(bytes) {
        Ok(s) => Some(s),
        Err(_) => None,
    }
}

/// Whether `c` has the Unicode `White_Space` property (what
/// `char::is_whitespace` answers).
pub open spec fn is_whitespace(c: char) -> bool {
    let u = c as u32;
    ||| 0x09 <= u <= 0x0d
    ||| u == 0x20
    ||| u == 0x85
    ||| u == 0xa0
    ||| u == 0x1680
    ||| 0x2000 <= u <= 0x200a
    ||| u == 0x2028
    ||| u == 0x2029
    ||| u == 0x202f
    ||| u == 0x205f
    ||| u == 0x3000
}

/// `t` is `s` with its leading and trailing whitespace removed.
pub open spec fn is_trim_of(t: Seq<char>, s: Seq<char>) -> bool {
    exists|a: int, b: int|
        0 <= a <= b <= s.len() && t == s.subrange(a, b)
        && (forall|i: int| 0 <= i < a ==> is_whitespace(#[trigger] s[i]))
        && (forall|i: int| b <= i < s.len() ==> is_whitespace(#[trigger] s[i]))
        && (a < b ==> !is_whitespace(s[a]) && !is_whitespace(s[b - 1]))
}

/// `s` without leading and trailing whitespace.
///
/// Calls `str::trim`, which std documents as removing leading and trailing
/// characters with the Unicode `White_Space` property; the contract states
/// that of the result.
#[verifier::external_body]
pub(crate) fn trim(s: &str) -> (r: &str)
    ensures
        is_trim_of(r@, s@),
{
    s.trim()
}

/// The character of the decimal digit `d` (for `d < 10`).
pub open spec fn digit_char(d: nat) -> char {
    if d == 0 { '0' }
    else if d == 1 { '1' }
    else if d == 2 { '2' }
    else if d == 3 { '3' }
    else if d == 4 { '4' }
    else if d == 5 { '5' }
    else if d == 6 { '6' }
    else if d == 7 { '7' }
    else if d == 8 { '8' }
    else { '9' }
}

/// The decimal representation of `n`, without leading zeros.
pub open spec fn decimal_chars(n: nat) -> Seq<char>
    decreases n,
{
    if n < 10 {
        seq![digit_char(n)]
    } else {
        decimal_chars(n / 10).push(digit_char(n % 10))
    }
}

fn digit_str(d: u64) -> (r: &'static str)
    requires
        d < 10,
    ensures
        r@ == seq![digit_char(d as nat)],
{
    proof {
        reveal_strlit("0");
        reveal_strlit("1");
        reveal_strlit("2");
        reveal_strlit("3");
        reveal_strlit("4");
        reveal_strlit("5");
        reveal_strlit("6");
        reveal_strlit("7");
        reveal_strlit("8");
        reveal_strlit("9");
    }
    if d == 0 { "0" }
    else if d == 1 { "1" }
    else if d == 2 { "2" }
    else if d == 3 { "3" }
    else if d == 4 { "4" }
    else if d == 5 { "5" }
    else if d == 6 { "6" }
    else if d == 7 { "7" }
    else if d == 8 { "8" }
    else { "9" }
}

/// `n` written in decimal.
pub fn decimal_string(n: u64) -> (r: String)
    ensures
        r@ == decimal_chars(n as nat),
    decreases n,
{
    if n < 10 {
        String::from_str(digit_str(n))
    } else {
        let head = decimal_string(n / 10);
        let r = head.concat(digit_str(n % 10));
        assert(r@ =~= decimal_chars(n as nat));
        r
    }
}

/// The number that a string of decimal digits denotes.
pub open spec fn numeral_value(s: Seq<char>) -> int
    decreases s.len(),
{
    if s.len() == 0 {
        0
    } else {
        numeral_value(s.drop_last()) * 10 + ((s.last() as u32) - 0x30)
    }
}

proof fn lemma_digit_char(d: nat)
    requires
        d < 10,
    ensures
        digit_char(d) as u32 == 0x30 + d,
{
    assert('0' as u32 == 0x30 && '1' as u32 == 0x31 && '2' as u32 == 0x32 && '3' as u32 == 0x33
        && '4' as u32 == 0x34 && '5' as u32 == 0x35 && '6' as u32 == 0x36 && '7' as u32 == 0x37
        && '8' as u32 == 0x38 && '9' as u32 == 0x39);
}

/// `decimal_chars(n)` is the base-10 numeral of `n`: it is made of the
/// digits `0`-`9` only, it denotes `n`, and it starts with `0` only when it
/// is `0` itself.
pub proof fn law_decimal_chars_is_numeral(n: nat)
    ensures
        decimal_chars(n).len() > 0,
        forall|i: int| 0 <= i < decimal_chars(n).len() ==> 0x30 <= (#[trigger] decimal_chars(n)[i] as u32) <= 0x39,
        numeral_value(decimal_chars(n)) == n,
        (decimal_chars(n)[0] == '0') <==> n == 0,
    decreases n,
{
    let d = decimal_chars(n);
    lemma_digit_char(n % 10);
    if n < 10 {
        assert(d.drop_last() =~= Seq::<char>::empty());
        assert(n % 10 == n);
        assert(d.last() == digit_char(n));
        assert(numeral_value(d) == numeral_value(d.drop_last()) * 10 + ((d.last() as u32) - 0x30));
        assert(numeral_value(Seq::<char>::empty()) == 0);
    } else {
        law_decimal_chars_is_numeral(n / 10);
        let h = decimal_chars(n / 10);
        assert(d.drop_last() =~= h);
        assert(d[0] == h[0]);
        assert forall|i: int| 0 <= i < d.len() implies 0x30 <= (#[trigger] d[i] as u32) <= 0x39 by {
            if i < h.len() {
                assert(d[i] == h[i]);
            }
        }
        assert((n / 10) * 10 + n % 10 == n);
        assert(d.last() == digit_char(n % 10));
        assert(numeral_value(d) == numeral_value(d.drop_last()) * 10 + ((d.last() as u32) - 0x30));
    }
}

} // verus!
