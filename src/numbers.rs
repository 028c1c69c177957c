use vstd::prelude::*;

verus! {

/// The decimal digits of `n`, most significant first, with no leading zero.
pub open spec fn digits_of(n: nat) -> Seq<u8>
    decreases n,
{
    if n < 10 {
        seq![(48 + n) as u8]
    } else {
        digits_of(n / 10).push((48 + n % 10) as u8)
    }
}

/// The decimal text of `i`: a minus sign for a negative number, then the digits.
pub open spec fn int_text(i: int) -> Seq<u8> {
    if i < 0 {
        seq![45u8] + digits_of((-i) as nat)
    } else {
        digits_of(i as nat)
    }
}

pub open spec fn is_digit(b: u8) -> bool {
    48 <= b <= 57
}

pub open spec fn all_digits(s: Seq<u8>) -> bool {
    forall|i: int| 0 <= i < s.len() ==> is_digit(#[trigger] s[i])
}

/// The number that a sequence of decimal digits stands for.
pub open spec fn digits_value(s: Seq<u8>) -> nat
    decreases s.len(),
{
    if s.len() == 0 {
        0
    } else {
        digits_value(s.drop_last()) * 10 + (s.last() - 48) as nat
    }
}

/// The integer that `s` writes in decimal: an optional sign, then one or more
/// digits. A minus sign is accepted only where `signed` holds.
pub open spec fn parse_int(s: Seq<u8>, signed: bool) -> Option<int> {
    if s.len() == 0 {
        None
    } else if s[0] == 43u8 || (s[0] == 45u8 && signed) {
        let rest = s.drop_first();
        if rest.len() == 0 || !all_digits(rest) {
            None
        } else if s[0] == 45u8 {
            Some(-(digits_value(rest) as int))
        } else {
            Some(digits_value(rest) as int)
        }
    } else if all_digits(s) {
        Some(digits_value(s) as int)
    } else {
        None
    }
}

/// The integer that `s` writes in decimal, where it lies in `lo..=hi`.
pub open spec fn parse_in_range(s: Seq<u8>, signed: bool, lo: int, hi: int) -> Option<int> {
    match parse_int(s, signed) {
        Some(v) => if lo <= v <= hi {
            Some(v)
        } else {
            None
        },
        None => None,
    }
}

pub proof fn lemma_digits_of_shape(n: nat)
    ensures
        digits_of(n).len() >= 1,
        all_digits(digits_of(n)),
        digits_value(digits_of(n)) == n,
    decreases n,
{
    if n >= 10 {
        lemma_digits_of_shape(n / 10);
        let d = digits_of(n);
        assert(d.drop_last() == digits_of(n / 10));
        assert(d.last() == (48 + n % 10) as u8);
        assert((n / 10) * 10 + n % 10 == n) by (nonlinear_arith);
        assert(digits_value(d) == digits_value(d.drop_last()) * 10 + (d.last() - 48) as nat);
    } else {
        let d = digits_of(n);
        assert(d.drop_last() =~= Seq::<u8>::empty());
        assert(digits_value(d) == digits_value(d.drop_last()) * 10 + (d.last() - 48) as nat);
    }
}

pub open spec fn pow10(d: nat) -> nat
    decreases d,
{
    if d == 0 {
        1
    } else {
        10 * pow10((d - 1) as nat)
    }
}

/// A number below `10^d` has at most `d` digits.
pub proof fn lemma_digits_len(n: nat, d: nat)
    requires
        d >= 1,
        n < pow10(d),
    ensures
        digits_of(n).len() <= d,
    decreases n,
{
    if n >= 10 {
        let p = pow10((d - 1) as nat);
        assert(d >= 2) by {
            if d == 1 {
                assert(pow10(0) == 1);
            }
        }
        assert(n / 10 < p) by (nonlinear_arith)
            requires n < 10 * p;
        lemma_digits_len(n / 10, (d - 1) as nat);
    }
}

/// The decimal text of any value of a machine integer type is at most 41 bytes.
pub proof fn lemma_int_text_short(i: int)
    requires
        -0x1_0000_0000_0000_0000_0000_0000_0000_0000 <= i <= 0x1_0000_0000_0000_0000_0000_0000_0000_0000,
    ensures
        int_text(i).len() <= 41,
{
    reveal_with_fuel(pow10, 41);
    assert(pow10(40) == 10_000_000_000_000_000_000_000_000_000_000_000_000_000nat);
    if i < 0 {
        lemma_digits_len((-i) as nat, 40);
    } else {
        lemma_digits_len(i as nat, 40);
    }
}

/// Reading back the decimal text of an integer gives that integer.
pub proof fn lemma_parse_int_text(i: int, signed: bool)
    requires
        signed || i >= 0,
    ensures
        parse_int(int_text(i), signed) == Some(i),
{
    if i < 0 {
        let d = digits_of((-i) as nat);
        lemma_digits_of_shape((-i) as nat);
        assert(int_text(i).drop_first() =~= d);
    } else {
        lemma_digits_of_shape(i as nat);
    }
}

/// Appends the decimal digits of `n` to `out`.
pub fn push_digits(n: u128, out: &mut Vec<u8>)
    ensures
        final(out)@ == old(out)@ + digits_of(n as nat),
    decreases n,
{
    if n >= 10 {
        push_digits(n / 10, out);
    }
    out.push((48 + n % 10) as u8);
    proof {
        if n >= 10 {
            assert(final(out)@ =~= old(out)@ + digits_of(n as nat));
        }
    }
}

/// The decimal text of a non-negative integer.
pub fn unsigned_text(n: u128) -> (r: Vec<u8>)
    ensures
        r@ == int_text(n as int),
{
    let mut out: Vec<u8> = Vec::new();
    push_digits(n, &mut out);
    assert(out@ =~= int_text(n as int));
    out
}

/// The decimal text of an integer.
pub fn signed_text(n: i128) -> (r: Vec<u8>)
    ensures
        r@ == int_text(n as int),
{
    let mut out: Vec<u8> = Vec::new();
    if n < 0 {
        out.push(45u8);
        let magnitude: u128 = ((-(n + 1)) as u128) + 1;
        push_digits(magnitude, &mut out);
    } else {
        push_digits(n as u128, &mut out);
    }
    assert(out@ =~= int_text(n as int));
    out
}

/// The value of the digits `s[start..]`, where all are digits, there is at least
/// one, and the value fits in a `u128`.
fn parse_digits(s: &[u8], start: usize) -> (r: Option<u128>)
    requires
        start <= s@.len(),
    ensures
        ({
            let t = s@.subrange(start as int, s@.len() as int);
            match r {
                Some(m) => t.len() > 0 && all_digits(t) && digits_value(t) == m,
                None => t.len() == 0 || !all_digits(t) || digits_value(t) > u128::MAX,
            }
        }),
{
    if start == s.len() {
        return None;
    }
    let mut acc: u128 = 0;
    let mut i: usize = start;
    let mut overflow = false;
    while i < s.len()
        invariant
            start <= i <= s@.len(),
            all_digits(s@.subrange(start as int, i as int)),
            !overflow ==> acc == digits_value(s@.subrange(start as int, i as int)),
            overflow ==> digits_value(s@.subrange(start as int, i as int)) > u128::MAX,
        decreases s@.len() - i,
    {
        let b = s[i];
        if b < 48 || b > 57 {
            assert(!all_digits(s@.subrange(start as int, s@.len() as int))) by {
                assert(s@.subrange(start as int, s@.len() as int)[i - start] == b);
            }
            return None;
        }
        let d = (b - 48) as u128;
        proof {
            let prev = s@.subrange(start as int, i as int);
            let next = s@.subrange(start as int, i + 1);
            assert(next.drop_last() =~= prev);
            assert(next.last() == b);
            assert(digits_value(next) == digits_value(prev) * 10 + d);
        }
        if !overflow && acc <= (u128::MAX - d) / 10 {
            assert(acc * 10 + d <= u128::MAX) by (nonlinear_arith)
                requires acc <= (u128::MAX - d) / 10, d <= 9;
            acc = acc * 10 + d;
        } else {
            proof {
                let prev = s@.subrange(start as int, i as int);
                if !overflow {
                    assert(digits_value(prev) * 10 + d > u128::MAX) by (nonlinear_arith)
                        requires digits_value(prev) > (u128::MAX - d) / 10, d <= 9;
                } else {
                    assert(digits_value(prev) * 10 + d > u128::MAX) by (nonlinear_arith)
                        requires digits_value(prev) > u128::MAX, d <= 9;
                }
            }
            overflow = true;
        }
        i = i + 1;
    }
    assert(s@.subrange(start as int, s@.len() as int) =~= s@.subrange(start as int, i as int));
    if overflow {
        None
    } else {
        Some(acc)
    }
}

/// Reads `s` as a decimal integer in `-neg_limit..=pos_limit`: the sign (where
/// a minus sign is read) and the magnitude.
pub fn parse_bounded(s: &[u8], signed: bool, neg_limit: u128, pos_limit: u128) -> (r: Option<(bool, u128)>)
    ensures
        match r {
            Some((neg, m)) => parse_in_range(s@, signed, -(neg_limit as int), pos_limit as int)
                == Some(if neg { -(m as int) } else { m as int }),
            None => parse_in_range(s@, signed, -(neg_limit as int), pos_limit as int) is None,
        },
{
    if s.len() == 0 {
        return None;
    }
    let first = s[0];
    let neg = first == 45u8 && signed;
    let start: usize = if first == 43u8 || neg { 1 } else { 0 };
    proof {
        let rest = s@.subrange(start as int, s@.len() as int);
        if start == 1 {
            assert(rest =~= s@.drop_first());
        } else {
            assert(rest =~= s@);
        }
    }
    match parse_digits(s, start) {
        Some(m) => {
            if neg {
                if m <= neg_limit {
                    Some((true, m))
                } else {
                    None
                }
            } else if m <= pos_limit {
                Some((false, m))
            } else {
                None
            }
        },
        None => None,
    }
}

/// The signed integer with the given sign and magnitude.
pub fn signed_value(neg: bool, m: u128) -> (r: i128)
    requires
        m <= 0x8000_0000_0000_0000_0000_0000_0000_0000u128,
        !neg ==> m < 0x8000_0000_0000_0000_0000_0000_0000_0000u128,
    ensures
        r == if neg { -(m as int) } else { m as int },
{
    if !neg {
        m as i128
    } else if m == 0 {
        0
    } else {
        -((m - 1) as i128) - 1
    }
}

} // verus!
