//! Numeric style-command tokens: unsigned integers for stroke widths and
//! signed decimal literals, read into 16.16 fixed point, for the free-form
//! numeric tag.

use vstd::prelude::*;

use crate::fx::FX_ONE;

verus! {

/// Whether `c` is a decimal digit.
pub open spec fn spec_is_digit(c: char) -> bool {
    48 <= c as u32 && c as u32 <= 57
}

fn is_digit(c: char) -> (b: bool)
    ensures
        b == spec_is_digit(c),
{
    let u = c as u32;
    48 <= u && u <= 57
}

/// Whether every character of `s` is a decimal digit.
pub open spec fn spec_all_digits(s: Seq<char>) -> bool {
    forall|i: int| 0 <= i < s.len() ==> spec_is_digit(#[trigger] s[i])
}

/// The number a digit run denotes, most significant digit first.
pub open spec fn spec_digits_val(s: Seq<char>) -> int
    decreases s.len(),
{
    if s.len() == 0 {
        0
    } else {
        spec_digits_val(s.drop_last()) * 10 + (s[s.len() - 1] as u32 - 48)
    }
}

proof fn lemma_digits_val_take(s: Seq<char>, i: int)
    requires
        0 <= i < s.len(),
    ensures
        spec_digits_val(s.take(i + 1)) == spec_digits_val(s.take(i)) * 10 + (s[i] as u32 - 48),
{
    assert(s.take(i + 1).drop_last() =~= s.take(i));
    assert(s.take(i + 1)[i] == s[i]);
}

proof fn lemma_digits_val_nonneg(s: Seq<char>)
    requires
        spec_all_digits(s),
    ensures
        spec_digits_val(s) >= 0,
    decreases s.len(),
{
    if s.len() > 0 {
        assert(spec_all_digits(s.drop_last())) by {
            assert(forall|i: int| 0 <= i < s.len() - 1 ==> s.drop_last()[i] == s[i]);
        }
        lemma_digits_val_nonneg(s.drop_last());
    }
}

/// The `u32` a token denotes: a nonempty run of decimal digits whose value
/// fits; anything else is no number.
pub open spec fn spec_parse_u32(s: Seq<char>) -> Option<u32> {
    if s.len() > 0 && spec_all_digits(s) && spec_digits_val(s) <= u32::MAX {
        Some(spec_digits_val(s) as u32)
    } else {
        None
    }
}

/// Parse an unsigned stroke-width token.
pub fn parse_u32_chars(v: &Vec<char>) -> (r: Option<u32>)
    ensures
        r == spec_parse_u32(v@),
{
    if v.len() == 0 {
        return None;
    }
    let mut acc: u64 = 0;
    let mut i: usize = 0;
    while i < v.len()
        invariant
            0 <= i <= v@.len(),
            spec_all_digits(v@.take(i as int)),
            spec_digits_val(v@.take(i as int)) <= u32::MAX ==> acc == spec_digits_val(
                v@.take(i as int),
            ),
            spec_digits_val(v@.take(i as int)) > u32::MAX ==> acc > u32::MAX,
            acc <= 0xF_FFFF_FFFF,
        decreases v@.len() - i,
    {
        let c = v[i];
        if !is_digit(c) {
            proof {
                assert(!spec_all_digits(v@));
            }
            return None;
        }
        let d: u64 = (c as u32 as u64) - 48;
        proof {
            lemma_digits_val_take(v@, i as int);
            lemma_digits_val_nonneg(v@.take(i as int));
            assert(spec_all_digits(v@.take(i + 1))) by {
                assert(forall|j: int| 0 <= j < i + 1 ==> v@.take(i + 1)[j] == v@[j]);
            }
        }
        if acc <= 0xFFFF_FFFF {
            acc = acc * 10 + d;
        }
        i += 1;
    }
    proof {
        assert(v@.take(v@.len() as int) =~= v@);
    }
    if acc > 0xFFFF_FFFF {
        None
    } else {
        Some(acc as u32)
    }
}

/// Ten to the `k`-th power.
pub open spec fn spec_pow10(k: nat) -> int
    decreases k,
{
    if k == 0 {
        1
    } else {
        10 * spec_pow10((k - 1) as nat)
    }
}

proof fn lemma_pow10_pos(k: nat)
    ensures
        spec_pow10(k) >= 1,
    decreases k,
{
    if k > 0 {
        lemma_pow10_pos((k - 1) as nat);
    }
}

/// Index of the first point in `s`, or its length if there is none.
pub open spec fn spec_find_dot(s: Seq<char>) -> int
    decreases s.len(),
{
    if s.len() == 0 {
        0
    } else if s[0] == '.' {
        0
    } else {
        1 + spec_find_dot(s.drop_first())
    }
}

proof fn lemma_find_dot(s: Seq<char>, i: int)
    requires
        0 <= i <= s.len(),
        forall|j: int| 0 <= j < i ==> s[j] != '.',
        i < s.len() ==> s[i] == '.',
        i == s.len() ==> forall|j: int| 0 <= j < s.len() ==> s[j] != '.',
    ensures
        spec_find_dot(s) == i,
    decreases i,
{
    if i > 0 {
        lemma_find_dot(s.drop_first(), i - 1);
    }
}

/// The decimal literal a tag token denotes, in 16.16 fixed point, rounded
/// toward zero: an optional sign, then digits with at most one point and at
/// least one digit overall.  Tokens of more than 18 digits, or whose value
/// leaves `i64`, denote no number.
pub open spec fn spec_parse_fx(s: Seq<char>) -> Option<i64> {
    let negative = s.len() > 0 && s[0] == '-';
    let body = if s.len() > 0 && (s[0] == '-' || s[0] == '+') {
        s.drop_first()
    } else {
        s
    };
    spec_parse_fx_body(body, negative)
}

/// The unsigned digit part of a decimal literal, split at an optional point.
pub open spec fn spec_parse_fx_body(body: Seq<char>, negative: bool) -> Option<i64> {
    let d = spec_find_dot(body);
    if d == body.len() {
        spec_fx_of_parts(body, Seq::empty(), negative)
    } else {
        spec_fx_of_parts(body.take(d), body.skip(d + 1), negative)
    }
}

/// Fixed-point value of `int_part . frac_part`, negated if asked.
pub open spec fn spec_fx_of_parts(int_part: Seq<char>, frac_part: Seq<char>, negative: bool) -> Option<
    i64,
> {
    if int_part.len() + frac_part.len() == 0 || int_part.len() + frac_part.len() > 18
        || !spec_all_digits(int_part) || !spec_all_digits(frac_part) {
        None
    } else {
        let k = frac_part.len();
        let num = spec_digits_val(int_part) * spec_pow10(k) + spec_digits_val(frac_part);
        let fxv = (num * FX_ONE) / spec_pow10(k);
        if fxv > i64::MAX {
            None
        } else if negative {
            Some((-fxv) as i64)
        } else {
            Some(fxv as i64)
        }
    }
}

proof fn lemma_digits_val_bound(s: Seq<char>)
    requires
        spec_all_digits(s),
    ensures
        0 <= spec_digits_val(s) < spec_pow10(s.len()),
    decreases s.len(),
{
    if s.len() > 0 {
        assert(spec_all_digits(s.drop_last())) by {
            assert(forall|i: int| 0 <= i < s.len() - 1 ==> s.drop_last()[i] == s[i]);
        }
        lemma_digits_val_bound(s.drop_last());
        assert(s[s.len() - 1] as u32 - 48 <= 9);
    }
}

proof fn lemma_pow10_mono(a: nat, b: nat)
    requires
        a <= b,
    ensures
        spec_pow10(a) <= spec_pow10(b),
    decreases b,
{
    if a < b {
        lemma_pow10_mono(a, (b - 1) as nat);
        lemma_pow10_pos((b - 1) as nat);
    }
}

proof fn lemma_pow10_18()
    ensures
        spec_pow10(18) == 1000000000000000000,
{
    reveal_with_fuel(spec_pow10, 20);
}

proof fn lemma_pow10_add(a: nat, b: nat)
    ensures
        spec_pow10(a) * spec_pow10(b) == spec_pow10(a + b),
    decreases a,
{
    if a == 0 {
        assert(spec_pow10(0) == 1);
    } else {
        lemma_pow10_add((a - 1) as nat, b);
        assert(spec_pow10(a) * spec_pow10(b) == 10 * (spec_pow10((a - 1) as nat) * spec_pow10(b)))
            by (nonlinear_arith)
            requires
                spec_pow10(a) == 10 * spec_pow10((a - 1) as nat),
        ;
    }
}

/// Ten to the `k`-th, for exponents a digit run of a tag token can have.
fn pow10_u64(k: usize) -> (r: u64)
    requires
        k <= 18,
    ensures
        r == spec_pow10(k as nat),
{
    let mut r: u64 = 1;
    let mut i: usize = 0;
    proof {
        lemma_pow10_18();
    }
    while i < k
        invariant
            0 <= i <= k <= 18,
            r == spec_pow10(i as nat),
            spec_pow10(18) == 1000000000000000000,
        decreases k - i,
    {
        proof {
            lemma_pow10_mono(i as nat + 1, 18);
            lemma_pow10_pos(i as nat);
        }
        r = r * 10;
        i += 1;
    }
    r
}

/// Scan a digit run, returning its value if it is all digits and short
/// enough to be exact.
fn digits_val_u64(v: &Vec<char>, from: usize, to: usize) -> (r: Option<u64>)
    requires
        from <= to <= v@.len(),
        to - from <= 18,
    ensures
        match r {
            Some(n) => spec_all_digits(v@.subrange(from as int, to as int)) && n
                == spec_digits_val(v@.subrange(from as int, to as int)),
            None => !spec_all_digits(v@.subrange(from as int, to as int)),
        },
{
    let ghost s = v@.subrange(from as int, to as int);
    let mut acc: u64 = 0;
    let mut i: usize = from;
    proof {
        lemma_pow10_18();
        assert(s.take(0) =~= Seq::<char>::empty());
    }
    while i < to
        invariant
            from <= i <= to <= v@.len(),
            to - from <= 18,
            s == v@.subrange(from as int, to as int),
            spec_all_digits(s.take(i - from)),
            acc == spec_digits_val(s.take(i - from)),
            spec_pow10(18) == 1000000000000000000,
        decreases to - i,
    {
        let c = v[i];
        proof {
            assert(s[i - from] == v@[i as int]);
        }
        if !is_digit(c) {
            proof {
                assert(!spec_all_digits(s));
            }
            return None;
        }
        proof {
            lemma_digits_val_take(s, i - from);
            lemma_digits_val_bound(s.take(i - from));
            lemma_pow10_mono((i - from) as nat, 17);
            lemma_pow10_mono((i - from + 1) as nat, 18);
        }
        let d: u64 = (c as u32 as u64) - 48;
        acc = acc * 10 + d;
        i += 1;
        proof {
            assert(spec_all_digits(s.take(i - from))) by {
                assert(forall|j: int| 0 <= j < i - from ==> s.take(i - from)[j] == s[j]);
            }
        }
    }
    proof {
        assert(s.take(to - from) =~= s);
    }
    Some(acc)
}

/// Parse a signed decimal tag token into 16.16 fixed point.
#[verifier::rlimit(50)]
pub fn parse_fx_chars(v: &Vec<char>) -> (r: Option<i64>)
    ensures
        r == spec_parse_fx(v@),
{
    let negative = v.len() > 0 && v[0] == '-';
    let start: usize = if v.len() > 0 && (v[0] == '-' || v[0] == '+') {
        1
    } else {
        0
    };
    let ghost body = if start == 1 {
        v@.drop_first()
    } else {
        v@
    };
    proof {
        if start == 1 {
            assert(body =~= v@.skip(1));
        } else {
            assert(body =~= v@.skip(0));
        }
        assert forall|j: int| 0 <= j < body.len() implies body[j] == v@[j + start] by {
            assert(v@.skip(start as int)[j] == v@[j + start]);
        }
    }
    let mut i: usize = start;
    while i < v.len() && v[i] != '.'
        invariant
            start <= i <= v@.len(),
            forall|j: int| start <= j < i ==> v@[j] != '.',
        decreases v@.len() - i,
    {
        i += 1;
    }
    let dot: usize = i;
    proof {
        assert(forall|j: int| 0 <= j < dot - start ==> body[j] != '.');
        lemma_find_dot(body, dot - start);
    }
    let int_to = if dot < v.len() {
        dot
    } else {
        v.len()
    };
    let frac_from = if dot < v.len() {
        dot + 1
    } else {
        v.len()
    };
    let ghost int_part = body.take(spec_find_dot(body));
    let ghost frac_part = if spec_find_dot(body) == body.len() {
        Seq::<char>::empty()
    } else {
        body.skip(spec_find_dot(body) + 1)
    };
    proof {
        assert(int_part =~= v@.subrange(start as int, int_to as int));
        assert(frac_part =~= v@.subrange(frac_from as int, v@.len() as int));
    }
    let int_len = int_to - start;
    let frac_len = v.len() - frac_from;
    if int_len + frac_len == 0 || int_len + frac_len > 18 {
        return None;
    }
    let Some(int_val) = digits_val_u64(v, start, int_to) else { return None };
    let Some(frac_val) = digits_val_u64(v, frac_from, v.len()) else { return None };
    proof {
        lemma_digits_val_bound(int_part);
        lemma_digits_val_bound(frac_part);
        lemma_pow10_mono(int_part.len(), 18);
        lemma_pow10_mono(frac_part.len(), 18);
        lemma_pow10_pos(frac_part.len());
        lemma_pow10_18();
    }
    let p10: u64 = pow10_u64(frac_len);
    proof {
        lemma_pow10_add(int_part.len(), frac_part.len());
        lemma_pow10_pos(int_part.len());
        assert(int_val * p10 + frac_val < spec_pow10(int_part.len() + frac_part.len()))
            by (nonlinear_arith)
            requires
                0 <= int_val <= spec_pow10(int_part.len()) - 1,
                0 <= frac_val <= spec_pow10(frac_part.len()) - 1,
                p10 == spec_pow10(frac_part.len()),
                spec_pow10(frac_part.len()) >= 1,
                spec_pow10(int_part.len()) * spec_pow10(frac_part.len()) == spec_pow10(
                    int_part.len() + frac_part.len(),
                ),
        ;
        lemma_pow10_mono(int_part.len() + frac_part.len(), 18);
        lemma_pow10_18();
    }
    let num: u128 = (int_val as u128) * (p10 as u128) + (frac_val as u128);
    let scaled: u128 = num * (FX_ONE as u128);
    let fxv: u128 = scaled / (p10 as u128);
    if fxv > i64::MAX as u128 {
        None
    } else if negative {
        Some(-(fxv as i64))
    } else {
        Some(fxv as i64)
    }
}

} // verus!
