//! Opaque 128-bit session tokens and their two serialized forms: the
//! decimal cookie value sent to clients and the little-endian byte string
//! kept server-side.
//!
//! Both encodings are given exact mathematical meanings ([`dec_rep`],
//! [`le_byte`]) and the cookie codec is proved to round-trip.

use vstd::prelude::*;
use vstd::string::StrSliceExecFns;
use vstd::string::StringExecFns;

use crate::rng::fill_bytes16;

verus! {

/// An opaque, unguessable session token: 128 bits drawn from a seedable
/// cryptographically secure generator.
#[derive(Clone, Copy, PartialEq, Eq, Structural, Debug)]
pub struct SessionToken {
    pub value: u128,
}

impl View for SessionToken {
    type V = u128;

    open spec fn view(&self) -> u128 {
        self.value
    }
}

/// Whether `c` is a decimal digit.
pub open spec fn is_dec_digit(c: char) -> bool {
    '0' <= c && c <= '9'
}

/// The digit character for a value below ten.
pub open spec fn dec_digit_char(d: int) -> char
    recommends
        0 <= d < 10,
{
    if d == 0 {
        '0'
    } else if d == 1 {
        '1'
    } else if d == 2 {
        '2'
    } else if d == 3 {
        '3'
    } else if d == 4 {
        '4'
    } else if d == 5 {
        '5'
    } else if d == 6 {
        '6'
    } else if d == 7 {
        '7'
    } else if d == 8 {
        '8'
    } else {
        '9'
    }
}

/// The value of a digit character.
pub open spec fn dec_digit_val(c: char) -> int {
    c as int - '0' as int
}

/// The canonical decimal representation of a nonnegative integer: no
/// sign, no leading zero (except for zero itself).
pub open spec fn dec_rep(n: int) -> Seq<char>
    recommends
        n >= 0,
    decreases n,
{
    if n < 10 {
        seq![dec_digit_char(n)]
    } else {
        dec_rep(n / 10).push(dec_digit_char(n % 10))
    }
}

/// Whether every character of `s` is a decimal digit.
pub open spec fn all_dec_digits(s: Seq<char>) -> bool {
    forall|i: int| 0 <= i < s.len() ==> is_dec_digit(#[trigger] s[i])
}

/// The integer a digit string denotes.
pub open spec fn dec_val(s: Seq<char>) -> int
    decreases s.len(),
{
    if s.len() == 0 {
        0
    } else {
        dec_val(s.drop_last()) * 10 + dec_digit_val(s.last())
    }
}

/// What parsing a cookie value yields: the denoted integer for a
/// nonempty all-digit string whose value fits in 128 bits, nothing
/// otherwise.
pub open spec fn parse_dec(s: Seq<char>) -> Option<u128> {
    if s.len() >= 1 && all_dec_digits(s) && dec_val(s) <= u128::MAX {
        Some(dec_val(s) as u128)
    } else {
        None
    }
}

/// The characters of `digits` (digit values, lowest first) read back to
/// front.
pub open spec fn rev_digit_chars(digits: Seq<u8>) -> Seq<char> {
    Seq::new(digits.len(), |i: int| dec_digit_char(digits[digits.len() - 1 - i] as int))
}

/// The one-character string for a digit value.
fn digit_to_str(d: u8) -> (r: &'static str)
    requires
        d < 10,
    ensures
        r@ == seq![dec_digit_char(d as int)],
{
    let r = if d == 0 {
        "0"
    } else if d == 1 {
        "1"
    } else if d == 2 {
        "2"
    } else if d == 3 {
        "3"
    } else if d == 4 {
        "4"
    } else if d == 5 {
        "5"
    } else if d == 6 {
        "6"
    } else if d == 7 {
        "7"
    } else if d == 8 {
        "8"
    } else {
        "9"
    };
    proof {
        reveal_strlit("0");
        reveal_strlit("1");
        reveal_strlit("2");
        reveal_strlit("3");
        reveal_strlit("4");
        reveal_strlit("5");
        reveal_strlit("6");
        reveal_strlit("7");
        reveal_strlit("8");
        reveal_strlit("9");
        assert(r@ =~= seq![dec_digit_char(d as int)]);
    }
    r
}

impl SessionToken {
    /// The textual form sent to clients as a cookie value: the token's
    /// value in decimal.
    pub fn into_cookie_value(self) -> (r: String)
        ensures
            r@ == dec_rep(self.value as int),
    {
        let ghost n: int = self.value as int;
        let mut digits: Vec<u8> = Vec::new();
        let mut m: u128 = self.value;
        while m >= 10
            invariant
                m >= 0,
                dec_rep(n) == dec_rep(m as int) + rev_digit_chars(digits@),
                forall|i: int| 0 <= i < digits@.len() ==> (#[trigger] digits@[i]) < 10,
            decreases m,
        {
            let d = (m % 10) as u8;
            proof {
                let ds = digits@;
                assert(rev_digit_chars(ds.push(d)) =~= seq![dec_digit_char(d as int)]
                    + rev_digit_chars(ds));
                assert(dec_rep((m / 10) as int).push(dec_digit_char(d as int)) + rev_digit_chars(
                    ds,
                ) =~= dec_rep((m / 10) as int) + (seq![dec_digit_char(d as int)]
                    + rev_digit_chars(ds)));
                assert(dec_rep(m as int) == dec_rep((m / 10) as int).push(
                    dec_digit_char((m % 10) as int),
                ));
            }
            digits.push(d);
            m = m / 10;
        }
        let d = m as u8;
        proof {
            let ds = digits@;
            assert(rev_digit_chars(ds.push(d)) =~= seq![dec_digit_char(d as int)]
                + rev_digit_chars(ds));
            assert(dec_rep(m as int) =~= seq![dec_digit_char(d as int)]);
        }
        digits.push(d);
        proof {
            assert(dec_rep(n) == rev_digit_chars(digits@));
            assert(dec_rep(n).len() == digits@.len());
        }
        let total = digits.len();
        let mut out = String::new();
        let mut idx = total;
        while idx > 0
            invariant
                idx <= total,
                total == digits@.len(),
                dec_rep(n) == rev_digit_chars(digits@),
                dec_rep(n).len() == digits@.len(),
                forall|i: int| 0 <= i < digits@.len() ==> (#[trigger] digits@[i]) < 10,
                out@ == dec_rep(n).take(total - idx),
            decreases idx,
        {
            idx -= 1;
            let s = digit_to_str(digits[idx]);
            out.append(s);
            proof {
                assert(out@ =~= dec_rep(n).take(total - idx));
            }
        }
        proof {
            assert(dec_rep(n).take(total as int) =~= dec_rep(n));
        }
        out
    }

    /// Parses a cookie value back to a token. Accepts exactly the
    /// nonempty all-digit strings whose value fits in 128 bits; on
    /// anything else the request is treated as anonymous.
    pub fn from_cookie_value(s: &str) -> (r: Option<SessionToken>)
        ensures
            match r {
                Some(t) => parse_dec(s@) == Some(t.value),
                None => parse_dec(s@) is None,
            },
    {
        let n = s.unicode_len();
        if n == 0 {
            return None;
        }
        let mut k: usize = 0;
        while k < n
            invariant
                n == s@.len(),
                k <= n,
                forall|i: int| 0 <= i < k ==> is_dec_digit(#[trigger] s@[i]),
            decreases n - k,
        {
            let c = s.get_char(k);
            if !(c >= '0' && c <= '9') {
                proof {
                    assert(!is_dec_digit(s@[k as int]));
                }
                return None;
            }
            k += 1;
        }
        let mut acc: u128 = 0;
        let mut k2: usize = 0;
        while k2 < n
            invariant
                n == s@.len(),
                k2 <= n,
                all_dec_digits(s@),
                acc as int == dec_val(s@.take(k2 as int)),
            decreases n - k2,
        {
            let c = s.get_char(k2);
            let d: u128 = (c as u32 - 48) as u128;
            proof {
                assert(is_dec_digit(s@[k2 as int]));
                assert(s@.take(k2 as int + 1).drop_last() =~= s@.take(k2 as int));
                assert(s@.take(k2 as int + 1).last() == s@[k2 as int]);
            }
            if acc > (u128::MAX - d) / 10 {
                proof {
                    lemma_dec_val_prefix_le(s@, k2 as int + 1);
                }
                return None;
            }
            acc = acc * 10 + d;
            k2 += 1;
        }
        proof {
            assert(s@.take(n as int) =~= s@);
        }
        Some(SessionToken { value: acc })
    }
}

/// A digit string denotes a nonnegative integer.
pub proof fn lemma_dec_val_nonneg(s: Seq<char>)
    requires
        all_dec_digits(s),
    ensures
        dec_val(s) >= 0,
    decreases s.len(),
{
    if s.len() > 0 {
        assert(all_dec_digits(s.drop_last()));
        lemma_dec_val_nonneg(s.drop_last());
        assert(is_dec_digit(s.last()));
    }
}

/// A digit string denotes at least what any of its prefixes denotes.
pub proof fn lemma_dec_val_prefix_le(s: Seq<char>, k: int)
    requires
        all_dec_digits(s),
        0 <= k <= s.len(),
    ensures
        dec_val(s.take(k)) <= dec_val(s),
    decreases s.len() - k,
{
    if k < s.len() {
        assert(s.take(k + 1).drop_last() =~= s.take(k));
        assert(s.take(k + 1).last() == s[k]);
        assert(all_dec_digits(s.take(k)));
        lemma_dec_val_nonneg(s.take(k));
        assert(is_dec_digit(s[k]));
        lemma_dec_val_prefix_le(s, k + 1);
    } else {
        assert(s.take(k) =~= s);
    }
}

/// The decimal representation consists of digits only, and is never
/// empty.
pub proof fn lemma_dec_rep_all_digits(n: int)
    requires
        n >= 0,
    ensures
        all_dec_digits(dec_rep(n)),
        dec_rep(n).len() >= 1,
    decreases n,
{
    if n < 10 {
        assert(is_dec_digit(dec_digit_char(n)));
        assert(all_dec_digits(dec_rep(n)));
    } else {
        lemma_dec_rep_all_digits(n / 10);
        assert(is_dec_digit(dec_digit_char(n % 10)));
        assert(all_dec_digits(dec_rep(n)));
    }
}

/// The decimal representation denotes the number it was built from.
pub proof fn lemma_dec_val_of_rep(n: int)
    requires
        n >= 0,
    ensures
        dec_val(dec_rep(n)) == n,
    decreases n,
{
    if n < 10 {
        let s = dec_rep(n);
        assert(s == seq![dec_digit_char(n)]);
        assert(s.len() == 1);
        assert(s.drop_last() =~= Seq::<char>::empty());
        assert(dec_val(s.drop_last()) == 0);
        assert(s.last() == dec_digit_char(n));
        assert(dec_digit_val(dec_digit_char(n)) == n);
        assert(dec_val(s) == dec_val(s.drop_last()) * 10 + dec_digit_val(s.last()));
    } else {
        lemma_dec_val_of_rep(n / 10);
        let s = dec_rep(n);
        assert(s == dec_rep(n / 10).push(dec_digit_char(n % 10)));
        assert(s.len() == dec_rep(n / 10).len() + 1);
        assert(s.drop_last() =~= dec_rep(n / 10));
        assert(s.last() == dec_digit_char(n % 10));
        assert(dec_digit_val(dec_digit_char(n % 10)) == n % 10);
        assert(dec_val(s) == dec_val(s.drop_last()) * 10 + dec_digit_val(s.last()));
        assert(dec_val(s.drop_last()) == n / 10);
        vstd::arithmetic::div_mod::lemma_fundamental_div_mod(n, 10);
        assert(n == 10 * (n / 10) + n % 10);
    }
}

/// Serializing a token and parsing the result gives the token back,
/// for every token value.
pub proof fn lemma_cookie_value_round_trip(t: SessionToken)
    ensures
        parse_dec(dec_rep(t@ as int)) == Some(t@),
{
    lemma_dec_rep_all_digits(t@ as int);
    lemma_dec_val_of_rep(t@ as int);
}

/// 256 raised to a nonnegative power.
pub open spec fn pow256(i: int) -> int
    decreases i,
{
    if i <= 0 {
        1
    } else {
        256 * pow256(i - 1)
    }
}

/// Powers of 256 are positive.
pub proof fn lemma_pow256_pos(i: int)
    ensures
        pow256(i) >= 1,
    decreases i,
{
    if i > 0 {
        lemma_pow256_pos(i - 1);
    }
}

/// Byte `i` of the little-endian form of `n`.
pub open spec fn le_byte(n: u128, i: int) -> u8 {
    (((n as int) / pow256(i)) % 256) as u8
}

/// The integer a little-endian byte string denotes.
pub open spec fn le_val(s: Seq<u8>) -> int
    decreases s.len(),
{
    if s.len() == 0 {
        0
    } else {
        s[0] + 256 * le_val(s.drop_first())
    }
}

impl SessionToken {
    /// The byte form kept server-side: the token's value as sixteen
    /// little-endian bytes.
    pub fn into_database_value(self) -> (r: Vec<u8>)
        ensures
            r@.len() == 16,
            forall|i: int| 0 <= i < 16 ==> (#[trigger] r@[i]) == le_byte(self.value, i),
    {
        let mut out: Vec<u8> = Vec::new();
        let mut m: u128 = self.value;
        let mut k: usize = 0;
        while k < 16
            invariant
                k <= 16,
                out@.len() == k,
                m as int == (self.value as int) / pow256(k as int),
                forall|i: int| 0 <= i < k ==> (#[trigger] out@[i]) == le_byte(self.value, i),
            decreases 16 - k,
        {
            out.push((m % 256) as u8);
            proof {
                lemma_pow256_pos(k as int);
                vstd::arithmetic::div_mod::lemma_div_denominator(
                    self.value as int,
                    pow256(k as int),
                    256,
                );
            }
            m = m / 256;
            k += 1;
        }
        out
    }

    /// The token a sixteen-byte little-endian string denotes.
    pub fn from_database_value(bytes: &Vec<u8>) -> (t: SessionToken)
        requires
            bytes@.len() == 16,
        ensures
            t.value as int == le_val(bytes@),
    {
        let mut acc: u128 = 0;
        let mut k: usize = 16;
        while k > 0
            invariant
                k <= 16,
                bytes@.len() == 16,
                acc as int == le_val(bytes@.skip(k as int)),
                (acc as int) < pow256(16 - k as int),
            decreases k,
        {
            k -= 1;
            let b = bytes[k];
            proof {
                assert(bytes@.skip(k as int).drop_first() =~= bytes@.skip(k as int + 1));
                lemma_pow256_pos(15 - k);
                assert(pow256(16 - k as int) == 256 * pow256(15 - k as int));
                assert(pow256(16) == 0x100000000000000000000000000000000) by {
                    reveal_with_fuel(pow256, 17);
                }
                assert(forall|a: int, b2: int| 0 <= a <= b2 ==> pow256(a) <= pow256(b2)) by {
                    assert forall|a: int, b2: int| 0 <= a <= b2 implies pow256(a) <= pow256(
                        b2,
                    ) by {
                        lemma_pow256_le(a, b2);
                    }
                }
            }
            acc = acc * 256 + (b as u128);
        }
        proof {
            assert(bytes@.skip(0) =~= bytes@);
        }
        SessionToken { value: acc }
    }

    /// Draws a fresh token from the random source: sixteen random bytes
    /// read as one 128-bit value. Nothing is promised of the value; every
    /// caller is verified for every outcome.
    pub fn generate_new(rng: &mut rand_chacha::ChaCha8Rng) -> (t: SessionToken) {
        let bytes = fill_bytes16(rng);
        SessionToken::from_database_value(&bytes)
    }
}

/// The transport-level pieces of a successful authentication response:
/// the status, a redirect location and the session cookie header value.
/// A transport layer writes these into its own response type.
pub struct ResponseParts {
    pub status: u16,
    pub location: String,
    pub set_cookie: String,
    pub body: String,
}

impl SessionToken {
    /// The response that hands this token to the client: status 200, a
    /// redirect to `/`, and a `Set-Cookie` value naming `user_token`
    /// with a long max-age.
    pub fn to_response(self) -> (r: ResponseParts)
        ensures
            r.status == 200,
            r.location@ == "/"@,
            r.set_cookie@ == "user_token="@ + dec_rep(self.value as int)
                + "; Max-Age=9999999; Path=/"@,
            r.body@.len() == 0,
    {
        let mut sc = String::from_str("user_token=");
        let cv = self.into_cookie_value();
        sc.append(cv.as_str());
        sc.append("; Max-Age=9999999; Path=/");
        ResponseParts {
            status: 200,
            location: String::from_str("/"),
            set_cookie: sc,
            body: String::new(),
        }
    }
}

/// Powers of 256 grow with the exponent.
pub proof fn lemma_pow256_le(a: int, b: int)
    requires
        0 <= a <= b,
    ensures
        pow256(a) <= pow256(b),
    decreases b - a,
{
    if a < b {
        lemma_pow256_le(a, b - 1);
        lemma_pow256_pos(b - 1);
    }
}

} // verus!
