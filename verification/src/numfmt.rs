//! Verified decimal text handling: strict base-10 integer parsing, monetary
//! literal parsing (cents with round-half-away-from-zero), and decimal
//! rendering of integers.

use vstd::prelude::*;

verus! {

/// Whether `c` is an ASCII decimal digit.
pub open spec fn is_digit(c: char) -> bool {
    48 <= c as u32 <= 57
}

/// Numeric value of a decimal digit character.
pub open spec fn digit_val(c: char) -> int {
    c as u32 - 48
}

/// Whether every character of `s` is a decimal digit.
pub open spec fn all_digits(s: Seq<char>) -> bool {
    forall|k: int| 0 <= k < s.len() ==> is_digit(#[trigger] s[k])
}

/// Value of a digit string read in base 10.
pub open spec fn digits_val(s: Seq<char>) -> nat
    decreases s.len(),
{
    if s.len() == 0 {
        0
    } else {
        digits_val(s.drop_last()) * 10 + if is_digit(s.last()) {
            digit_val(s.last()) as nat
        } else {
            0
        }
    }
}

proof fn lemma_digits_val_snoc(s: Seq<char>, i: int)
    requires
        0 <= i < s.len(),
    ensures
        digits_val(s.take(i + 1)) == digits_val(s.take(i)) * 10 + if is_digit(s[i]) {
            digit_val(s[i]) as nat
        } else {
            0
        },
{
    assert(s.take(i + 1).drop_last() =~= s.take(i));
    assert(s.take(i + 1).last() == s[i]);
}

proof fn lemma_digits_val_mono(s: Seq<char>, i: int, j: int)
    requires
        0 <= i <= j <= s.len(),
    ensures
        digits_val(s.take(i)) <= digits_val(s.take(j)),
    decreases j - i,
{
    if i < j {
        lemma_digits_val_snoc(s, i);
        assert(digits_val(s.take(i)) <= digits_val(s.take(i)) * 10) by (nonlinear_arith)
            requires
                digits_val(s.take(i)) >= 0,
        ;
        lemma_digits_val_mono(s, i + 1, j);
    }
}

/// Strict base-10 parsing of an unsigned integer: every character must be a
/// digit, at least one digit, and the value must fit in `usize`.
pub fn parse_usize(s: &str) -> (r: Option<usize>)
    ensures
        r is Some <==> s@.len() > 0 && all_digits(s@) && digits_val(s@) <= usize::MAX,
        r matches Some(v) ==> v == digits_val(s@),
{
    let n = s.unicode_len();
    if n == 0 {
        return None;
    }
    let mut acc: usize = 0;
    let mut i: usize = 0;
    while i < n
        invariant
            0 < n == s@.len(),
            i <= n,
            all_digits(s@.take(i as int)),
            acc == digits_val(s@.take(i as int)),
        decreases n - i,
    {
        let c = s.get_char(i);
        let d = c as u32;
        if d < 48 || d > 57 {
            assert(!is_digit(s@[i as int]));
            return None;
        }
        let step = match acc.checked_mul(10) {
            Some(m) => m.checked_add((d - 48) as usize),
            None => None,
        };
        proof {
            lemma_digits_val_snoc(s@, i as int);
        }
        match step {
            Some(v) => {
                acc = v;
            },
            None => {
                proof {
                    lemma_digits_val_mono(s@, i + 1, n as int);
                    assert(s@.take(n as int) =~= s@);
                }
                return None;
            },
        }
        i = i + 1;
    }
    proof {
        assert(s@.take(n as int) =~= s@);
    }
    Some(acc)
}

/// Equality of two string slices, decided on their character sequences.
pub fn str_eq(a: &str, b: &str) -> (r: bool)
    ensures
        r == (a@ == b@),
{
    let sa = a.to_owned();
    let sb = b.to_owned();
    sa == sb
}

/// Index of the first `.` in `s` at or after `i`, if any.
pub open spec fn first_dot(s: Seq<char>, i: int) -> Option<int>
    decreases s.len() - i,
{
    if i < 0 || i >= s.len() {
        None
    } else if s[i] == '.' {
        Some(i)
    } else {
        first_dot(s, i + 1)
    }
}

proof fn lemma_first_dot_found(s: Seq<char>, i: int, p: int)
    requires
        0 <= i <= p < s.len(),
        forall|k: int| i <= k < p ==> #[trigger] s[k] != '.',
        s[p] == '.',
    ensures
        first_dot(s, i) == Some(p),
    decreases p - i,
{
    if i < p {
        lemma_first_dot_found(s, i + 1, p);
    }
}

proof fn lemma_first_dot_none(s: Seq<char>, i: int)
    requires
        0 <= i,
        forall|k: int| i <= k < s.len() ==> #[trigger] s[k] != '.',
    ensures
        first_dot(s, i) == None::<int>,
    decreases s.len() - i,
{
    if i < s.len() {
        lemma_first_dot_none(s, i + 1);
    }
}

/// Sign split of a monetary literal: whether it starts with `-`, and the rest.
pub open spec fn money_sign(s: Seq<char>) -> bool {
    s.len() > 0 && s[0] == '-'
}

/// The literal without its optional leading `-`.
pub open spec fn money_body(s: Seq<char>) -> Seq<char> {
    if money_sign(s) {
        s.skip(1)
    } else {
        s
    }
}

/// Shape of a monetary literal: optional `-`, one or more integer digits,
/// then optionally `.` followed by zero or more fraction digits.
pub open spec fn is_money_lit(s: Seq<char>) -> bool {
    let t = money_body(s);
    t.len() > 0 && match first_dot(t, 0) {
        None => all_digits(t),
        Some(p) => p >= 1 && all_digits(t.take(p)) && all_digits(t.skip(p + 1)),
    }
}

/// Cents contributed by the fraction digits, rounding half away from zero:
/// two cent digits, plus one if the third digit is 5 or more.
pub open spec fn frac_cents(f: Seq<char>) -> int {
    (if f.len() >= 1 {
        10 * digit_val(f[0])
    } else {
        0
    }) + (if f.len() >= 2 {
        digit_val(f[1])
    } else {
        0
    }) + (if f.len() >= 3 && digit_val(f[2]) >= 5 {
        1int
    } else {
        0int
    })
}

/// Magnitude of an unsigned monetary literal, in cents.
pub open spec fn money_mag(t: Seq<char>) -> int {
    match first_dot(t, 0) {
        None => 100 * digits_val(t) as int,
        Some(p) => 100 * digits_val(t.take(p)) as int + frac_cents(t.skip(p + 1)),
    }
}

/// Value of a monetary literal in cents: round-half-away-from-zero of 100
/// times the written decimal value.
pub open spec fn money_cents(s: Seq<char>) -> int {
    if money_sign(s) {
        -money_mag(money_body(s))
    } else {
        money_mag(money_body(s))
    }
}

/// Parse a monetary literal into a signed number of cents, rounding half away
/// from zero; `None` on any other shape, or when the magnitude exceeds
/// `i64::MAX` cents.
pub fn parse_cents(s: &str) -> (r: Option<i64>)
    ensures
        r is Some <==> is_money_lit(s@) && money_mag(money_body(s@)) <= i64::MAX,
        r matches Some(v) ==> v == money_cents(s@),
{
    let n = s.unicode_len();
    let mut i: usize = 0;
    let mut neg = false;
    if n > 0 && s.get_char(0) == '-' {
        neg = true;
        i = 1;
    }
    let ghost off = i as int;
    let ghost t = money_body(s@);
    proof {
        assert(t =~= s@.skip(off));
        assert(neg == money_sign(s@));
    }
    if i == n {
        // no integer digit
        return None;
    }
    let int_start = i;
    let mut acc: u64 = 0;
    let mut saw_dot = false;
    while i < n
        invariant_except_break
            !saw_dot,
        invariant
            n == s@.len(),
            t == money_body(s@),
            off == int_start,
            0 <= off <= i <= n,
            t =~= s@.skip(off),
            all_digits(t.take(i - off)),
            forall|k: int| 0 <= k < i - off ==> #[trigger] t[k] != '.',
            acc == digits_val(t.take(i - off)),
            saw_dot ==> i < n && t[i - off] == '.',
        ensures
            n == s@.len(),
            0 <= off <= i <= n,
            all_digits(t.take(i - off)),
            forall|k: int| 0 <= k < i - off ==> #[trigger] t[k] != '.',
            acc == digits_val(t.take(i - off)),
            saw_dot ==> i < n && t[i - off] == '.',
            !saw_dot ==> i == n,
        decreases n - i,
    {
        let c = s.get_char(i);
        assert(t[i - off] == s@[i as int]);
        if c == '.' {
            saw_dot = true;
            break ;
        }
        let d = c as u32;
        if d < 48 || d > 57 {
            // a character that is neither a digit nor the first dot
            proof {
                assert(!is_digit(t[i - off]));
                assert(t[i - off] != '.');
                if is_money_lit(s@) {
                    match first_dot(t, 0) {
                        None => {
                            assert(is_digit(t[i - off]));
                        },
                        Some(p) => {
                            lemma_first_dot_is_dot(t, 0, p);
                            if i - off < p {
                                assert(is_digit(t.take(p)[i - off]));
                                assert(t.take(p)[i - off] == t[i - off]);
                            } else {
                                assert(i - off > p || i - off == p);
                                assert(t[p] == '.');
                            }
                        },
                    }
                }
            }
            return None;
        }
        proof {
            lemma_digits_val_snoc(t, i - off);
            assert(digit_val(t[i - off]) == d - 48);
        }
        let m10 = acc.checked_mul(10);
        match m10 {
            Some(m) => {
                match m.checked_add((d - 48) as u64) {
                    Some(v) => {
                        acc = v;
                    },
                    None => {
                        // the integer part alone exceeds u64, so the value
                        // exceeds i64::MAX cents whatever follows
                        proof {
                            lemma_money_overflow(t, i + 1 - off);
                        }
                        return None;
                    },
                }
            },
            None => {
                proof {
                    assert(acc * 10 + digit_val(t[i - off]) >= acc * 10);
                    lemma_money_overflow(t, i + 1 - off);
                }
                return None;
            },
        }
        i = i + 1;
    }
    let int_len = i - int_start;
    if int_len == 0 {
        // leading dot: not a monetary literal
        proof {
            if is_money_lit(s@) {
                match first_dot(t, 0) {
                    Some(q) => {
                        lemma_first_dot_is_dot(t, 0, q);
                        assert(q >= 1);
                        assert(is_digit(t.take(q)[0]));
                        assert(t.take(q)[0] == t[0]);
                        assert(t[0] == '.');
                    },
                    None => {
                        assert(is_digit(t[0]));
                    },
                }
            }
        }
        return None;
    }
    let ghost p = i - off;
    let mut cents: u64 = 0;
    if saw_dot {
        proof {
            lemma_first_dot_found(t, 0, p);
        }
        // validate the fraction digits
        let mut j = i + 1;
        while j < n
            invariant
                n == s@.len(),
                t == money_body(s@),
                t =~= s@.skip(off),
                0 <= off <= i < j <= n,
                p == i - off,
                first_dot(t, 0) == Some(p),
                p + 1 <= t.len(),
                all_digits(t.skip(p + 1).take(j - i - 1)),
            decreases n - j,
        {
            let c = s.get_char(j);
            assert(t.skip(p + 1)[j - i - 1] == s@[j as int]);
            let d = c as u32;
            if d < 48 || d > 57 {
                assert(!is_digit(t.skip(p + 1)[j - i - 1]));
                return None;
            }
            proof {
                assert(t.skip(p + 1).take(j - i) =~= t.skip(p + 1).take(j - i - 1).push(
                    s@[j as int],
                ));
            }
            j = j + 1;
        }
        let ghost f = t.skip(p + 1);
        proof {
            assert(f.take(n - i - 1) =~= f);
            assert(all_digits(f));
        }
        // read up to three fraction digits: two cent digits and the digit
        // that decides the rounding
        if i + 1 < n {
            assert(f[0] == s@[i + 1]);
            assert(is_digit(f[0]));
            let d1 = s.get_char(i + 1) as u32 - 48;
            cents = (10 * d1) as u64;
            if i + 2 < n {
                assert(f[1] == s@[i + 2]);
                assert(is_digit(f[1]));
                let d2 = s.get_char(i + 2) as u32 - 48;
                cents = cents + d2 as u64;
                if i + 3 < n {
                    assert(f[2] == s@[i + 3]);
                    assert(is_digit(f[2]));
                    let d3 = s.get_char(i + 3) as u32 - 48;
                    if d3 >= 5 {
                        cents = cents + 1;
                    }
                }
            }
        }
        assert(cents == frac_cents(f));
        assert(cents <= 100);
    } else {
        proof {
            lemma_first_dot_none(t, 0);
            assert(t.take(i - off) =~= t);
        }
    }
    proof {
        assert(is_money_lit(s@));
        assert(money_mag(t) == 100 * (acc as int) + cents);
    }
    // magnitude in cents
    let m100 = acc.checked_mul(100);
    match m100 {
        Some(m) => {
            match m.checked_add(cents) {
                Some(m2) => {
                    if m2 > i64::MAX as u64 {
                        None
                    } else {
                        let v = m2 as i64;
                        if neg {
                            Some(-v)
                        } else {
                            Some(v)
                        }
                    }
                },
                None => None,
            }
        },
        None => None,
    }
}

proof fn lemma_first_dot_is_dot(s: Seq<char>, i: int, p: int)
    requires
        0 <= i,
        first_dot(s, i) == Some(p),
    ensures
        0 <= i <= p < s.len(),
        s[p] == '.',
        forall|k: int| i <= k < p ==> #[trigger] s[k] != '.',
    decreases s.len() - i,
{
    if i < s.len() && s[i] != '.' {
        lemma_first_dot_is_dot(s, i + 1, p);
    }
}

proof fn lemma_money_overflow(t: Seq<char>, j: int)
    requires
        0 <= j <= t.len(),
        digits_val(t.take(j)) > u64::MAX,
        forall|k: int| 0 <= k < j ==> #[trigger] t[k] != '.',
    ensures
        money_mag(t) > i64::MAX,
{
    match first_dot(t, 0) {
        None => {
            lemma_digits_val_mono(t, j, t.len() as int);
            assert(t.take(t.len() as int) =~= t);
            assert(100 * digits_val(t) > i64::MAX) by (nonlinear_arith)
                requires
                    digits_val(t) > u64::MAX,
            ;
        },
        Some(p) => {
            lemma_first_dot_is_dot(t, 0, p);
            // the scanned digits sit before the dot
            assert(j <= p);
            lemma_digits_val_mono(t, j, p);
            // a character code is at least 0, so a misread digit is at
            // least -48; three of them bound the fraction cents below
            assert(frac_cents(t.skip(p + 1)) >= -1000);
            assert(100 * digits_val(t.take(p)) + frac_cents(t.skip(p + 1)) > i64::MAX)
                by (nonlinear_arith)
                requires
                    digits_val(t.take(p)) > u64::MAX,
                    frac_cents(t.skip(p + 1)) >= -1000,
            ;
        },
    }
}

/// The digit character for value `d`.
pub open spec fn dec_digit(d: int) -> char {
    if d == 0 {
        '0'
    } else if d == 1 {
        '1'
    } else if d == 2 {
        '2'
    } else if d == 3 {
        '3'
    } else if d == 4 {
        '4'
    } else if d == 5 {
        '5'
    } else if d == 6 {
        '6'
    } else if d == 7 {
        '7'
    } else if d == 8 {
        '8'
    } else {
        '9'
    }
}

/// Decimal rendering of a natural number, most significant digit first.
pub open spec fn spec_u64_dec(n: nat) -> Seq<char>
    decreases n,
{
    if n < 10 {
        seq![dec_digit(n as int)]
    } else {
        spec_u64_dec(n / 10) + seq![dec_digit((n % 10) as int)]
    }
}

fn push_dec_digit(s: &mut String, d: u64)
    requires
        d < 10,
    ensures
        final(s)@ == old(s)@ + seq![dec_digit(d as int)],
{
    if d == 0 {
        s.append("0");
        proof {
            reveal_strlit("0");
            assert("0"@ =~= seq![dec_digit(d as int)]);
        }
    } else if d == 1 {
        s.append("1");
        proof {
            reveal_strlit("1");
            assert("1"@ =~= seq![dec_digit(d as int)]);
        }
    } else if d == 2 {
        s.append("2");
        proof {
            reveal_strlit("2");
            assert("2"@ =~= seq![dec_digit(d as int)]);
        }
    } else if d == 3 {
        s.append("3");
        proof {
            reveal_strlit("3");
            assert("3"@ =~= seq![dec_digit(d as int)]);
        }
    } else if d == 4 {
        s.append("4");
        proof {
            reveal_strlit("4");
            assert("4"@ =~= seq![dec_digit(d as int)]);
        }
    } else if d == 5 {
        s.append("5");
        proof {
            reveal_strlit("5");
            assert("5"@ =~= seq![dec_digit(d as int)]);
        }
    } else if d == 6 {
        s.append("6");
        proof {
            reveal_strlit("6");
            assert("6"@ =~= seq![dec_digit(d as int)]);
        }
    } else if d == 7 {
        s.append("7");
        proof {
            reveal_strlit("7");
            assert("7"@ =~= seq![dec_digit(d as int)]);
        }
    } else if d == 8 {
        s.append("8");
        proof {
            reveal_strlit("8");
            assert("8"@ =~= seq![dec_digit(d as int)]);
        }
    } else {
        s.append("9");
        proof {
            reveal_strlit("9");
            assert("9"@ =~= seq![dec_digit(d as int)]);
        }
    }
}

/// Append the decimal rendering of `n` to `s`.
pub fn push_u64_dec(s: &mut String, n: u64)
    ensures
        final(s)@ == old(s)@ + spec_u64_dec(n as nat),
    decreases n,
{
    if n >= 10 {
        push_u64_dec(s, n / 10);
        push_dec_digit(s, n % 10);
        proof {
            assert(s@ =~= old(s)@ + spec_u64_dec(n as nat));
        }
    } else {
        push_dec_digit(s, n);
    }
}

/// Decimal rendering of `n` as a fresh string.
pub fn u64_dec(n: u64) -> (r: String)
    ensures
        r@ == spec_u64_dec(n as nat),
{
    let mut s = String::new();
    push_u64_dec(&mut s, n);
    proof {
        assert(s@ =~= spec_u64_dec(n as nat));
    }
    s
}

/// Two-digit zero-padded rendering of `n < 100`.
pub open spec fn spec_pad2(n: nat) -> Seq<char> {
    seq![dec_digit((n / 10) as int), dec_digit((n % 10) as int)]
}

/// Append the two-digit zero-padded rendering of `n` to `s`.
pub fn push_pad2(s: &mut String, n: u64)
    requires
        n < 100,
    ensures
        final(s)@ == old(s)@ + spec_pad2(n as nat),
{
    push_dec_digit(s, n / 10);
    push_dec_digit(s, n % 10);
    proof {
        assert(s@ =~= old(s)@ + spec_pad2(n as nat));
    }
}

} // verus!
