//! Decimal text of integers, as JSON writes them.

use vstd::prelude::*;
use vstd::string::*;

verus! {

/// The character of the decimal digit `d`.
pub open spec fn digit(d: nat) -> char {
    ((48 + d) as u32) as char
}

pub open spec fn is_digit(c: char) -> bool {
    '0' <= c && c <= '9'
}

pub open spec fn digit_value(c: char) -> nat {
    ((c as u32) - 48) as nat
}

/// The decimal text of `n`: no sign, no leading zero.
pub open spec fn decimal(n: nat) -> Seq<char>
    decreases n,
{
    if n < 10 {
        seq![digit(n)]
    } else {
        decimal(n / 10).push(digit(n % 10))
    }
}

/// The text of a signed integer: a minus sign before the digits of a
/// negative one.
pub open spec fn signed_decimal(i: int) -> Seq<char> {
    if i < 0 {
        seq!['-'] + decimal((-i) as nat)
    } else {
        decimal(i as nat)
    }
}

pub open spec fn all_digits(s: Seq<char>) -> bool {
    forall|i: int| 0 <= i < s.len() ==> is_digit(#[trigger] s[i])
}

/// Digits with no leading zero, as `decimal` writes them.
pub open spec fn canonical(s: Seq<char>) -> bool {
    &&& s.len() >= 1
    &&& all_digits(s)
    &&& s[0] == '0' ==> s.len() == 1
}

/// The number that a string of digits stands for.
pub open spec fn digits_value(s: Seq<char>) -> nat
    decreases s.len(),
{
    if s.len() == 0 {
        0
    } else {
        digits_value(s.drop_last()) * 10 + digit_value(s.last())
    }
}

proof fn lemma_digit_round_trip(d: nat)
    requires
        d < 10,
    ensures
        is_digit(digit(d)),
        digit_value(digit(d)) == d,
        digit(d) == '0' <==> d == 0,
{
    assert((((48 + d) as u32) as char) as u32 == 48 + d);
}

proof fn lemma_char_round_trip(c: char)
    requires
        is_digit(c),
    ensures
        digit(digit_value(c)) == c,
        digit_value(c) < 10,
        c == '0' <==> digit_value(c) == 0,
{
}

/// `decimal(n)` is canonical text whose value is `n`.
pub proof fn lemma_decimal(n: nat)
    ensures
        canonical(decimal(n)),
        digits_value(decimal(n)) == n,
        n >= 10 ==> decimal(n).len() >= 2,
    decreases n,
{
    if n < 10 {
        lemma_digit_round_trip(n);
        assert(decimal(n).drop_last() =~= Seq::<char>::empty());
        assert(digits_value(decimal(n).drop_last()) == 0);
        assert(decimal(n).last() == digit(n));
    } else {
        lemma_decimal(n / 10);
        lemma_digit_round_trip(n % 10);
        let s = decimal(n);
        assert(s.drop_last() =~= decimal(n / 10));
        assert(digits_value(s) == (n / 10) * 10 + n % 10);
        assert((n / 10) * 10 + n % 10 == n) by (nonlinear_arith);
        if decimal(n / 10)[0] == '0' {
            assert(decimal(n / 10).len() == 1);
            assert(decimal(n / 10).drop_last() =~= Seq::<char>::empty());
            lemma_char_round_trip(decimal(n / 10)[0]);
        }
        assert(all_digits(s)) by {
            assert forall|i: int| 0 <= i < s.len() implies is_digit(#[trigger] s[i]) by {
                if i < s.len() - 1 {
                    assert(s[i] == decimal(n / 10)[i]);
                }
            }
        }
    }
}

proof fn lemma_leading_nonzero(s: Seq<char>)
    requires
        s.len() >= 1,
        all_digits(s),
        s[0] != '0',
    ensures
        digits_value(s) >= 1,
    decreases s.len(),
{
    if s.len() == 1 {
        lemma_char_round_trip(s[0]);
    } else {
        lemma_leading_nonzero(s.drop_last());
    }
}

/// Canonical text is the decimal text of its value.
pub proof fn lemma_canonical(s: Seq<char>)
    requires
        canonical(s),
    ensures
        decimal(digits_value(s)) == s,
    decreases s.len(),
{
    let v = digits_value(s);
    if s.len() == 1 {
        lemma_char_round_trip(s[0]);
        assert(s.drop_last() =~= Seq::<char>::empty());
        assert(digits_value(s.drop_last()) == 0);
        assert(v == digit_value(s[0]));
        assert(decimal(v) =~= seq![digit(v)]);
        assert(decimal(v) =~= s);
    } else {
        let p = s.drop_last();
        lemma_char_round_trip(s.last());
        assert(p[0] == s[0]);
        lemma_canonical(p);
        lemma_leading_nonzero(p);
        let d = digit_value(s.last());
        assert(v / 10 == digits_value(p) && v % 10 == d) by (nonlinear_arith)
            requires
                v == digits_value(p) * 10 + d,
                d < 10,
        ;
        assert(decimal(v) =~= s);
    }
}

/// Distinct numbers have distinct decimal text.
pub proof fn lemma_decimal_injective(a: nat, b: nat)
    ensures
        decimal(a) == decimal(b) ==> a == b,
{
    lemma_decimal(a);
    lemma_decimal(b);
}

/// Distinct integers have distinct signed text.
pub proof fn lemma_signed_injective(a: int, b: int)
    ensures
        signed_decimal(a) == signed_decimal(b) ==> a == b,
{
    if signed_decimal(a) == signed_decimal(b) {
        let s = signed_decimal(a);
        if a < 0 && b < 0 {
            assert(decimal((-a) as nat) =~= s.subrange(1, s.len() as int));
            assert(decimal((-b) as nat) =~= s.subrange(1, s.len() as int));
            lemma_decimal_injective((-a) as nat, (-b) as nat);
        } else if a >= 0 && b >= 0 {
            lemma_decimal_injective(a as nat, b as nat);
        } else if a < 0 {
            lemma_decimal(b as nat);
            assert(is_digit(decimal(b as nat)[0]));
        } else {
            lemma_decimal(a as nat);
            assert(is_digit(decimal(a as nat)[0]));
        }
    }
}

proof fn lemma_prefix_value(s: Seq<char>, k: int)
    requires
        0 <= k <= s.len(),
    ensures
        digits_value(s) >= digits_value(s.subrange(0, k)),
    decreases s.len(),
{
    if k < s.len() {
        lemma_prefix_value(s.drop_last(), k);
        assert(s.drop_last().subrange(0, k) =~= s.subrange(0, k));
    } else {
        assert(s.subrange(0, k) =~= s);
    }
}

/// Relies on std's `Display` for `u64`: decimal digits, no sign, no leading
/// zero.
#[verifier::external_body]
pub(crate) fn u64_text(n: u64) -> (r: String)
    ensures
        r@ == decimal(n as nat),
{
    n.to_string()
}

/// Relies on std's `Display` for `i32`: a minus sign for a negative value,
/// then decimal digits with no leading zero.
#[verifier::external_body]
pub(crate) fn i32_text(n: i32) -> (r: String)
    ensures
        r@ == signed_decimal(n as int),
{
    n.to_string()
}

/// Relies on std's `Display` for `i64`: a minus sign for a negative value,
/// then decimal digits with no leading zero.
#[verifier::external_body]
pub(crate) fn i64_text(n: i64) -> (r: String)
    ensures
        r@ == signed_decimal(n as int),
{
    n.to_string()
}

/// The `u64` whose decimal text `t` is, if any.
pub fn parse_u64(t: &str) -> (r: Option<u64>)
    ensures
        r matches Some(v) ==> t@ == decimal(v as nat),
        r is None ==> forall|v: u64| t@ != decimal(v as nat),
{
    let n = t.unicode_len();
    if n == 0 {
        proof {
            assert forall|v: u64| t@ != decimal(v as nat) by {
                lemma_decimal(v as nat);
            }
        }
        return None;
    }
    let first = t.get_char(0);
    if first == '0' && n > 1 {
        proof {
            assert forall|v: u64| t@ != decimal(v as nat) by {
                lemma_decimal(v as nat);
            }
        }
        return None;
    }
    let mut acc: u64 = 0;
    let mut i: usize = 0;
    while i < n
        invariant
            n == t@.len(),
            i <= n,
            all_digits(t@.subrange(0, i as int)),
            acc == digits_value(t@.subrange(0, i as int)),
        decreases n - i,
    {
        let c = t.get_char(i);
        let code = c as u32;
        if code < 48 || code > 57 {
            proof {
                assert forall|v: u64| t@ != decimal(v as nat) by {
                    lemma_decimal(v as nat);
                    if t@ == decimal(v as nat) {
                        assert(is_digit(t@[i as int]));
                    }
                }
            }
            return None;
        }
        let d = (code - 48) as u64;
        assert(t@.subrange(0, i + 1).drop_last() =~= t@.subrange(0, i as int));
        if acc > (u64::MAX - d) / 10 {
            proof {
                assert(digits_value(t@.subrange(0, i + 1)) > u64::MAX) by (nonlinear_arith)
                    requires
                        acc > (u64::MAX - d) / 10,
                        digits_value(t@.subrange(0, i + 1)) == acc * 10 + d,
                ;
                lemma_prefix_value(t@, i + 1);
                assert forall|v: u64| t@ != decimal(v as nat) by {
                    lemma_decimal(v as nat);
                }
            }
            return None;
        }
        assert(acc * 10 + d <= u64::MAX) by (nonlinear_arith)
            requires
                acc <= (u64::MAX - d) / 10,
                d <= 9,
        ;
        acc = acc * 10 + d;
        i = i + 1;
        assert(all_digits(t@.subrange(0, i as int))) by {
            assert forall|j: int| 0 <= j < i implies is_digit(#[trigger] t@.subrange(0, i as int)[j]) by {
                if j < i - 1 {
                    assert(t@.subrange(0, i as int)[j] == t@.subrange(0, i - 1)[j]);
                }
            }
        }
    }
    proof {
        assert(t@.subrange(0, n as int) =~= t@);
        lemma_canonical(t@);
    }
    Some(acc)
}

/// The `i32` whose text, as `signed_decimal` writes it, `t` is, if any.
pub fn parse_i32(t: &str) -> (r: Option<i32>)
    ensures
        r matches Some(v) ==> t@ == signed_decimal(v as int),
        r is None ==> forall|v: i32| t@ != signed_decimal(v as int),
{
    let n = t.unicode_len();
    if n >= 1 && t.get_char(0) == '-' {
        let rest = t.substring_char(1, n);
        assert(t@ =~= seq!['-'] + rest@);
        let parsed = parse_u64(rest);
        proof {
            assert forall|v: i32| #[trigger] signed_decimal(v as int) == t@ && v >= 0 implies false by {
                lemma_decimal(v as nat);
                assert(is_digit(decimal(v as nat)[0]));
            }
            assert forall|v: i32| #[trigger] signed_decimal(v as int) == t@ && v < 0 implies rest@
                == decimal((-v) as nat) by {
                assert(rest@ =~= t@.subrange(1, t@.len() as int));
                assert(decimal((-v) as nat) =~= signed_decimal(v as int).subrange(
                    1,
                    t@.len() as int,
                ));
            }
        }
        match parsed {
            Some(m) => {
                if m >= 1 && m <= 2147483648 {
                    let v: i32 = if m == 2147483648 {
                        -2147483648i32
                    } else {
                        -(m as i32)
                    };
                    assert(signed_decimal(v as int) =~= seq!['-'] + decimal(m as nat));
                    return Some(v);
                }
                proof {
                    assert forall|v: i32| t@ != signed_decimal(v as int) by {
                        lemma_decimal_injective(m as nat, (-v) as nat);
                    }
                }
                None
            },
            None => {
                proof {
                    assert forall|v: i32| t@ != signed_decimal(v as int) by {
                        if v < 0 && t@ == signed_decimal(v as int) {
                            assert(rest@ != decimal(((-v) as u64) as nat));
                        }
                    }
                }
                None
            },
        }
    } else {
        let parsed = parse_u64(t);
        proof {
            assert forall|v: i32| #[trigger] signed_decimal(v as int) == t@ && v < 0 implies false by {
                assert(t@[0] == '-');
            }
        }
        match parsed {
            Some(m) => {
                if m <= 2147483647 {
                    return Some(m as i32);
                }
                proof {
                    assert forall|v: i32| t@ != signed_decimal(v as int) by {
                        lemma_decimal_injective(m as nat, v as nat);
                    }
                }
                None
            },
            None => {
                proof {
                    assert forall|v: i32| t@ != signed_decimal(v as int) by {
                        if v >= 0 {
                            assert(t@ != decimal((v as u64) as nat));
                        }
                    }
                }
                None
            },
        }
    }
}

/// The `i64` whose text, as `signed_decimal` writes it, `t` is, if any.
pub fn parse_i64(t: &str) -> (r: Option<i64>)
    ensures
        r matches Some(v) ==> t@ == signed_decimal(v as int),
        r is None ==> forall|v: i64| t@ != signed_decimal(v as int),
{
    let n = t.unicode_len();
    if n >= 1 && t.get_char(0) == '-' {
        let rest = t.substring_char(1, n);
        assert(t@ =~= seq!['-'] + rest@);
        let parsed = parse_u64(rest);
        proof {
            assert forall|v: i64| #[trigger] signed_decimal(v as int) == t@ && v >= 0 implies false by {
                lemma_decimal(v as nat);
                assert(is_digit(decimal(v as nat)[0]));
            }
            assert forall|v: i64| #[trigger] signed_decimal(v as int) == t@ && v < 0 implies rest@
                == decimal((-v) as nat) by {
                assert(rest@ =~= t@.subrange(1, t@.len() as int));
                assert(decimal((-v) as nat) =~= signed_decimal(v as int).subrange(
                    1,
                    t@.len() as int,
                ));
            }
        }
        match parsed {
            Some(m) => {
                if m >= 1 && m <= 9223372036854775808 {
                    let v: i64 = if m == 9223372036854775808 {
                        -9223372036854775808i64
                    } else {
                        -(m as i64)
                    };
                    assert(signed_decimal(v as int) =~= seq!['-'] + decimal(m as nat));
                    return Some(v);
                }
                proof {
                    assert forall|v: i64| t@ != signed_decimal(v as int) by {
                        lemma_decimal_injective(m as nat, (-v) as nat);
                    }
                }
                None
            },
            None => {
                proof {
                    assert forall|v: i64| t@ != signed_decimal(v as int) by {
                        if v < 0 && t@ == signed_decimal(v as int) {
                            assert(rest@ != decimal(((-v) as u64) as nat));
                        }
                    }
                }
                None
            },
        }
    } else {
        let parsed = parse_u64(t);
        proof {
            assert forall|v: i64| #[trigger] signed_decimal(v as int) == t@ && v < 0 implies false by {
                assert(t@[0] == '-');
            }
        }
        match parsed {
            Some(m) => {
                if m <= 9223372036854775807 {
                    return Some(m as i64);
                }
                proof {
                    assert forall|v: i64| t@ != signed_decimal(v as int) by {
                        lemma_decimal_injective(m as nat, v as nat);
                    }
                }
                None
            },
            None => {
                proof {
                    assert forall|v: i64| t@ != signed_decimal(v as int) by {
                        if v >= 0 {
                            assert(t@ != decimal((v as u64) as nat));
                        }
                    }
                }
                None
            },
        }
    }
}

} // verus!
