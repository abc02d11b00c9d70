//! The `Usd` value type: a dollar amount held exactly as whole cents, and
//! the decoder that reads such an amount from a wire object's `value` field,
//! where it travels as a decimal numeric string such as `"333333.33"`.

use vstd::prelude::*;

use crate::errors::{DecodeError, ErrorV};
use crate::json::{jv_get, Json, Jv};
use crate::text::{digit_char, group_thousands, push_char, spec_dec, spec_digit, spec_group3};

verus! {

/// A dollar amount expressed in United States Dollar (USD).
///
/// The amount is held as a signed count of cents, so `"333333.33"` on the
/// wire becomes `33_333_333` cents and every comparison, sort key and
/// rendered digit is exact.
#[derive(Clone, Copy, Debug, PartialEq, Eq, PartialOrd, Ord)]
pub struct Usd {
    cents: i64,
}

impl View for Usd {
    type V = int;

    closed spec fn view(&self) -> int {
        self.cents as int
    }
}

impl Usd {
    /// The amount `c` cents stands for, as a mathematical value.
    pub closed spec fn spec_new(c: i64) -> Usd {
        Usd { cents: c }
    }

    /// Construct from an amount in cents.
    pub fn new(cents: i64) -> (r: Usd)
        ensures
            r == Usd::spec_new(cents),
            r@ == cents as int,
    {
        Usd { cents }
    }

    /// Construct from an amount in cents; USD is implicit.
    pub fn from_usd(cents: i64) -> (r: Usd)
        ensures
            r == Usd::spec_new(cents),
            r@ == cents as int,
    {
        Usd { cents }
    }

    /// The stored amount, in cents.
    pub fn usd(&self) -> (r: i64)
        ensures
            r as int == self@,
    {
        self.cents
    }
}

/// Constructing an amount and reading it back returns the amount unchanged,
/// for every cent count a caller can supply.
pub proof fn lemma_currency_round_trip(cents: i64)
    ensures
        Usd::spec_new(cents)@ == cents as int,
{
}

/// Whether `c` is a decimal digit.
pub open spec fn is_digit(c: char) -> bool {
    ||| c == '0'
    ||| c == '1'
    ||| c == '2'
    ||| c == '3'
    ||| c == '4'
    ||| c == '5'
    ||| c == '6'
    ||| c == '7'
    ||| c == '8'
    ||| c == '9'
}

/// The value of a digit character; any non-digit counts as nine, which the
/// grammar never lets through.
pub open spec fn digit_val(c: char) -> int {
    if c == '0' {
        0
    } else if c == '1' {
        1
    } else if c == '2' {
        2
    } else if c == '3' {
        3
    } else if c == '4' {
        4
    } else if c == '5' {
        5
    } else if c == '6' {
        6
    } else if c == '7' {
        7
    } else if c == '8' {
        8
    } else {
        9
    }
}

/// Whether every character of `s` is a decimal digit.
pub open spec fn all_digits(s: Seq<char>) -> bool {
    forall|i: int| 0 <= i < s.len() ==> is_digit(#[trigger] s[i])
}

/// The value of a digit run read as a base-ten numeral.
pub open spec fn digits_val(s: Seq<char>) -> int
    decreases s.len(),
{
    if s.len() == 0 {
        0
    } else {
        digits_val(s.take(s.len() - 1)) * 10 + digit_val(s[s.len() - 1])
    }
}

/// The index of the first `'.'` in `b`, or `b.len()` where there is none.
pub open spec fn spec_first_dot(b: Seq<char>) -> int
    decreases b.len(),
{
    if b.len() == 0 {
        0
    } else if b[0] == '.' {
        0
    } else {
        1 + spec_first_dot(b.drop_first())
    }
}

/// The cents carried by a fraction digit run: the first two digits, with
/// missing places read as zero and further places truncated.
pub open spec fn frac_cents(fp: Seq<char>) -> int {
    (if fp.len() >= 1 {
        10 * digit_val(fp[0])
    } else {
        0
    }) + (if fp.len() >= 2 {
        digit_val(fp[1])
    } else {
        0
    })
}

/// The cents a decimal numeric string stands for, or nothing where the
/// string is not of the form `-?(D+(.D*)?|.D+)` or its value does not fit.
pub open spec fn spec_parse_cents(s: Seq<char>) -> Option<i64> {
    let neg = s.len() > 0 && s[0] == '-';
    let b = if neg {
        s.skip(1)
    } else {
        s
    };
    let k = spec_first_dot(b);
    let ip = b.take(k);
    let fp = if k == b.len() {
        Seq::<char>::empty()
    } else {
        b.skip(k + 1)
    };
    if !(all_digits(ip) && all_digits(fp) && ip.len() + fp.len() > 0) {
        None
    } else {
        let mag = digits_val(ip) * 100 + frac_cents(fp);
        if mag > i64::MAX {
            None
        } else if neg {
            Some((-mag) as i64)
        } else {
            Some(mag as i64)
        }
    }
}

proof fn lemma_digits_val_nonneg(s: Seq<char>)
    ensures
        digits_val(s) >= 0,
    decreases s.len(),
{
    if s.len() > 0 {
        lemma_digits_val_nonneg(s.take(s.len() - 1));
    }
}

proof fn lemma_digits_val_step(s: Seq<char>, i: int)
    requires
        0 <= i < s.len(),
    ensures
        digits_val(s.take(i + 1)) == digits_val(s.take(i)) * 10 + digit_val(s[i]),
{
    assert(s.take(i + 1).take(i) =~= s.take(i));
    assert(s.take(i + 1)[i] == s[i]);
}

proof fn lemma_digits_val_prefix(s: Seq<char>, i: int)
    requires
        0 <= i <= s.len(),
    ensures
        digits_val(s.take(i)) <= digits_val(s),
    decreases s.len() - i,
{
    if i == s.len() {
        assert(s.take(i) =~= s);
    } else {
        lemma_digits_val_step(s, i);
        lemma_digits_val_nonneg(s.take(i));
        lemma_digits_val_prefix(s, i + 1);
    }
}

proof fn lemma_first_dot_at(b: Seq<char>, k: int)
    requires
        0 <= k <= b.len(),
        forall|j: int| 0 <= j < k ==> b[j] != '.',
        k < b.len() ==> b[k] == '.',
    ensures
        spec_first_dot(b) == k,
    decreases k,
{
    if b.len() == 0 {
    } else if k == 0 {
    } else {
        assert forall|j: int| 0 <= j < k - 1 implies b.drop_first()[j] != '.' by {
            assert(b.drop_first()[j] == b[j + 1]);
        }
        lemma_first_dot_at(b.drop_first(), k - 1);
    }
}

/// The digit value of `c`, where `c` is a decimal digit.
fn char_val(c: char) -> (r: Option<u64>)
    ensures
        r is Some <==> is_digit(c),
        r matches Some(d) ==> d < 10 && d as int == digit_val(c),
{
    match c {
        '0' => Some(0),
        '1' => Some(1),
        '2' => Some(2),
        '3' => Some(3),
        '4' => Some(4),
        '5' => Some(5),
        '6' => Some(6),
        '7' => Some(7),
        '8' => Some(8),
        '9' => Some(9),
        _ => None,
    }
}

/// The index of the first `'.'` in `s` at or after `start`, or the length
/// where there is none.
fn find_dot(s: &str, start: usize) -> (r: usize)
    requires
        start <= s@.len(),
    ensures
        start <= r <= s@.len(),
        r < s@.len() ==> s@[r as int] == '.',
        forall|j: int| start <= j < r ==> s@[j] != '.',
{
    let n = s.unicode_len();
    let mut i: usize = start;
    while i < n
        invariant
            start <= i <= n,
            n == s@.len(),
            forall|j: int| start <= j < i ==> s@[j] != '.',
        decreases n - i,
    {
        if s.get_char(i) == '.' {
            return i;
        }
        i += 1;
    }
    n
}

/// Parses a decimal numeric string to cents.
///
/// Accepts an optional leading minus, then digits with at most one decimal
/// point and at least one digit.  Fraction digits beyond the second are
/// truncated.  Returns nothing where the text is not such a numeral or its
/// value does not fit in a cent count.
#[verifier::loop_isolation(false)]
#[verifier::rlimit(50)]
pub fn parse_cents(s: &str) -> (r: Option<i64>)
    ensures
        r == spec_parse_cents(s@),
{
    let n = s.unicode_len();
    let neg = if n > 0 {
        s.get_char(0) == '-'
    } else {
        false
    };
    let start: usize = if neg {
        1
    } else {
        0
    };
    let ghost b = s@.skip(start as int);
    let dot = find_dot(s, start);
    let ghost k = dot - start;
    let ghost ip = b.take(k as int);
    let ghost fp = if k == b.len() {
        Seq::<char>::empty()
    } else {
        b.skip(k as int + 1)
    };
    proof {
        if !neg {
            assert(s@.skip(0) =~= s@);
        }
        assert forall|j: int| 0 <= j < k implies b[j] != '.' by {
            assert(b[j] == s@[j + start]);
        }
        assert(k < b.len() ==> b[k as int] == '.');
        lemma_first_dot_at(b, k as int);
    }
    // Integer part: check digits and accumulate the value.
    let mut val: i128 = 0;
    let mut i: usize = start;
    while i < dot
        invariant
            start <= i <= dot <= n,
            n == s@.len(),
            start <= 1,
            b == s@.skip(start as int),
            k == dot - start,
            ip == b.take(k as int),
            ip.len() == k,
            forall|j: int| 0 <= j < k ==> ip[j] == s@[j + start],
            forall|j: int| 0 <= j < i - start ==> is_digit(#[trigger] ip[j]),
            0 <= val <= i64::MAX as i128,
            val as int == digits_val(ip.take(i - start)),
        decreases dot - i,
    {
        let c = s.get_char(i);
        match char_val(c) {
            None => {
                proof {
                    assert(!is_digit(ip[i - start]));
                }
                return None;
            },
            Some(d) => {
                let nv: i128 = val * 10 + d as i128;
                proof {
                    lemma_digits_val_step(ip, i - start);
                }
                if nv > i64::MAX as i128 {
                    proof {
                        lemma_digits_val_prefix(ip, i - start + 1);
                        lemma_digits_val_nonneg(ip);
                        assert(digits_val(ip) * 100 >= digits_val(ip));
                        assert(frac_cents(fp) >= 0);
                    }
                    return None;
                }
                val = nv;
            },
        }
        i += 1;
    }
    proof {
        assert(ip.take(k as int) =~= ip);
        assert(all_digits(ip));
    }
    // Fraction part: check digits; only the first two carry cents.
    let mut f0: u64 = 0;
    let mut f1: u64 = 0;
    if dot < n {
        let mut i: usize = dot + 1;
        while i < n
            invariant
                dot + 1 <= i <= n,
                n == s@.len(),
                start <= 1,
                start <= dot < n,
                b == s@.skip(start as int),
                k == dot - start,
                k < b.len(),
                fp == b.skip(k as int + 1),
                fp.len() == n - dot - 1,
                forall|j: int| 0 <= j < fp.len() ==> fp[j] == s@[j + dot + 1],
                forall|j: int| 0 <= j < i - dot - 1 ==> is_digit(#[trigger] fp[j]),
                f0 < 10 && f1 < 10,
                i - dot - 1 >= 1 ==> f0 as int == digit_val(fp[0]),
                i - dot - 1 < 1 ==> f0 == 0,
                i - dot - 1 >= 2 ==> f1 as int == digit_val(fp[1]),
                i - dot - 1 < 2 ==> f1 == 0,
            decreases n - i,
        {
            let c = s.get_char(i);
            match char_val(c) {
                None => {
                    proof {
                        assert(!is_digit(fp[i - dot - 1]));
                    }
                    return None;
                },
                Some(d) => {
                    if i == dot + 1 {
                        f0 = d;
                    } else if i == dot + 2 {
                        f1 = d;
                    }
                },
            }
            i += 1;
        }
    }
    proof {
        assert(all_digits(fp));
        assert(frac_cents(fp) == f0 * 10 + f1);
    }
    // The grammar needs at least one digit somewhere.
    if dot == start && (dot == n || dot + 1 == n) {
        proof {
            assert(ip.len() + fp.len() == 0);
        }
        return None;
    }
    proof {
        assert(ip.len() + fp.len() > 0);
    }
    let mag: i128 = val * 100 + (f0 * 10 + f1) as i128;
    if mag > i64::MAX as i128 {
        return None;
    }
    let m64: i64 = mag as i64;
    if neg {
        Some(-m64)
    } else {
        Some(m64)
    }
}

/// What decoding a currency object yields: the cents of its `value` string,
/// or the error owed for its shape.
pub open spec fn spec_decode_usd(j: Jv) -> Result<int, ErrorV> {
    match jv_get(j, "value"@) {
        Some(Jv::Str(s)) => match spec_parse_cents(s) {
            Some(c) => Ok(c as int),
            None => Err(ErrorV::MalformedAmount),
        },
        Some(_) => Err(ErrorV::MalformedResponse),
        None => Err(ErrorV::MalformedResponse),
    }
}

impl Usd {
    /// Decodes a currency object: reads the `value` field as a decimal
    /// numeric string; any sibling field (such as `currency`) is ignored.
    /// Fails with `MalformedAmount` where the string does not parse, and
    /// with `MalformedResponse` where `value` is missing or not a string.
    pub fn decode(j: &Json) -> (r: Result<Usd, DecodeError>)
        ensures
            spec_decode_usd(j.jv()) == (match r {
                Ok(u) => Ok::<int, ErrorV>(u@),
                Err(e) => Err::<int, ErrorV>(e@),
            }),
    {
        match j.get("value") {
            Some(v) => match v.as_str() {
                Some(s) => match parse_cents(s.as_str()) {
                    Some(c) => Ok(Usd::new(c)),
                    None => Err(DecodeError::MalformedAmount),
                },
                None => Err(DecodeError::MalformedResponse),
            },
            None => Err(DecodeError::MalformedResponse),
        }
    }
}

/// The rendered text of an amount of `c` cents: a dollar sign, the whole
/// dollars grouped in threes with commas, a point, and exactly two cent
/// digits.  A negative count renders as `$0.00`: the unsigned rendering
/// clamps it.
pub open spec fn spec_usd_str(c: int) -> Seq<char> {
    let m = if c < 0 {
        0
    } else {
        c
    };
    "$"@ + spec_group3(spec_dec((m / 100) as nat)) + "."@ + seq![
        spec_digit((m % 100) / 10),
        spec_digit((m % 100) % 10),
    ]
}

impl Usd {
    /// The amount rendered in the usual currency fashion: `$22,663.40`.
    pub fn display_string(&self) -> (r: String)
        ensures
            r@ == spec_usd_str(self@),
    {
        let m = self.usd();
        let mu: u64 = if m < 0 {
            0
        } else {
            m as u64
        };
        let dollars: u64 = mu / 100;
        let cc: u64 = mu % 100;
        let mut r = String::new();
        r.append("$");
        let grouped = group_thousands(dollars);
        r.append(grouped.as_str());
        r.append(".");
        push_char(&mut r, digit_char(cc / 10));
        push_char(&mut r, digit_char(cc % 10));
        proof {
            assert(r@ =~= spec_usd_str(self@));
        }
        r
    }
}

/// Decoding an object whose `value` field is the string `s` yields exactly
/// the cents `s` parses to, whatever other fields (such as `currency`)
/// stand beside it; a string that does not parse is owed `MalformedAmount`.
pub proof fn lemma_currency_decode(fields: Seq<(Seq<char>, Jv)>, s: Seq<char>)
    requires
        jv_get(Jv::Obj(fields), "value"@) == Some(Jv::Str(s)),
    ensures
        spec_parse_cents(s) matches Some(c) ==> spec_decode_usd(Jv::Obj(fields)) == Ok::<
            int,
            ErrorV,
        >(c as int),
        spec_parse_cents(s) is None ==> spec_decode_usd(Jv::Obj(fields)) == Err::<
            int,
            ErrorV,
        >(ErrorV::MalformedAmount),
{
}

} // verus!
