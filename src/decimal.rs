//! Fixed-point decimal amounts.
//!
//! Every quantity the exchange reports (balances, sizes, increments, prices,
//! rates) is a plain decimal string. The library reads it into an integer
//! count of `10^-18` units, computes on integers, and writes it back as text.
use vstd::prelude::*;
use vstd::arithmetic::div_mod::*;
use vstd::arithmetic::mul::*;
use crate::text::push_char;

verus! {

/// The amount that stands for one whole unit: an amount `a` stands for `a / 10^18`.
pub const ONE: u128 = 1_000_000_000_000_000_000;

/// Largest amount a decimal string can spell (eighteen digits on each side).
pub const MAX_AMOUNT: u128 = 999_999_999_999_999_999_999_999_999_999_999_999;

pub open spec fn pow10(n: nat) -> nat
    decreases n,
{
    if n == 0 {
        1
    } else {
        10 * pow10((n - 1) as nat)
    }
}

pub open spec fn is_digit(c: char) -> bool {
    '0' <= c && c <= '9'
}

pub open spec fn digit_value(c: char) -> nat {
    ((c as u32) - 48) as nat
}

pub open spec fn all_digits(s: Seq<char>) -> bool {
    forall|i: int| 0 <= i < s.len() ==> is_digit(#[trigger] s[i])
}

/// The number spelled by a string of decimal digits.
pub open spec fn digits_value(s: Seq<char>) -> nat
    decreases s.len(),
{
    if s.len() == 0 {
        0
    } else {
        digits_value(s.drop_last()) * 10 + digit_value(s.last())
    }
}

/// `s` has a decimal point at `i`, with only digits before and after it.
pub open spec fn dot_at(s: Seq<char>, i: int) -> bool {
    0 <= i < s.len() && s[i] == '.' && all_digits(s.take(i)) && all_digits(s.skip(i + 1))
}

/// The amount written by `s`: one to eighteen digits, then optionally a point
/// and at most eighteen more digits. Anything else spells no amount.
pub open spec fn decimal_value(s: Seq<char>) -> Option<nat> {
    if all_digits(s) {
        if 1 <= s.len() <= 18 {
            Some(digits_value(s) * pow10(18))
        } else {
            None
        }
    } else if exists|i: int| dot_at(s, i) {
        let i = choose|i: int| dot_at(s, i);
        let frac = s.skip(i + 1);
        if 1 <= i <= 18 && frac.len() <= 18 {
            Some(
                digits_value(s.take(i)) * pow10(18) + digits_value(frac) * pow10(
                    (18 - frac.len()) as nat,
                ),
            )
        } else {
            None
        }
    } else {
        None
    }
}

/// An optional amount seen as an optional natural number.
pub open spec fn amount_view(a: Option<u128>) -> Option<nat> {
    match a {
        Some(v) => Some(v as nat),
        None => None,
    }
}

/// Decimal digits kept by an increment: the most `d <= 18` for which the
/// increment is at most `10^-d`. An increment of one or more keeps none.
pub open spec fn increment_decimals(increment: nat) -> nat
    decreases 18int,
{
    decimals_from(increment, 18)
}

pub open spec fn decimals_from(increment: nat, d: nat) -> nat
    decreases d,
{
    if d == 0 {
        0
    } else if increment * pow10(d) <= pow10(18) {
        d
    } else {
        decimals_from(increment, (d - 1) as nat)
    }
}

/// `value` cut down (never rounded up) to `d` decimal digits.
pub open spec fn truncated(value: nat, d: nat) -> nat {
    let unit = pow10((18 - d) as nat);
    (value - value % unit) as nat
}

/// `value` cut down to the decimal digits that `increment` keeps.
pub open spec fn with_increment_spec(value: nat, increment: nat) -> nat {
    truncated(value, increment_decimals(increment))
}

/// `percentage` percent of `value`, rounded down to the smallest unit.
pub open spec fn percent_of_spec(value: nat, percentage: nat) -> nat {
    (value * percentage) / 100
}

// ---------------------------------------------------------------- lemmas

pub proof fn lemma_pow10_positive(n: nat)
    ensures
        pow10(n) >= 1,
    decreases n,
{
    if n > 0 {
        lemma_pow10_positive((n - 1) as nat);
    }
}

pub proof fn lemma_pow10_add(a: nat, b: nat)
    ensures
        pow10(a + b) == pow10(a) * pow10(b),
    decreases a,
{
    if a > 0 {
        let p = (a - 1) as nat;
        lemma_pow10_add(p, b);
        let x = pow10(p);
        let y = pow10(b);
        assert((a + b - 1) as nat == p + b);
        assert(pow10(a + b) == 10 * pow10(p + b));
        assert(pow10(a) == 10 * x);
        assert(10 * (x * y) == (10 * x) * y) by (nonlinear_arith);
        assert(pow10(a + b) == pow10(a) * pow10(b));
        assert(pow10(a) * pow10(b) >= 0) by (nonlinear_arith)
            requires
                pow10(a) >= 0,
                pow10(b) >= 0,
        ;
    } else {
        assert(pow10(0) == 1);
        assert(pow10(a + b) == pow10(b));
        assert(pow10(a) * pow10(b) == pow10(b));
    }
}

pub proof fn lemma_pow10_monotone(a: nat, b: nat)
    requires
        a <= b,
    ensures
        pow10(a) <= pow10(b),
    decreases b,
{
    if a < b {
        lemma_pow10_monotone(a, (b - 1) as nat);
    }
}

pub proof fn lemma_pow10_18()
    ensures
        pow10(18) == ONE,
        pow10(36) == pow10(18) * pow10(18),
{
    reveal_with_fuel(pow10, 19);
    lemma_pow10_add(18, 18);
}

proof fn lemma_digits_bound(s: Seq<char>)
    requires
        all_digits(s),
    ensures
        digits_value(s) < pow10(s.len()),
    decreases s.len(),
{
    if s.len() > 0 {
        let t = s.drop_last();
        assert(all_digits(t)) by {
            assert forall|i: int| 0 <= i < t.len() implies is_digit(t[i]) by {
                assert(t[i] == s[i]);
            }
        }
        lemma_digits_bound(t);
        assert(is_digit(s[s.len() - 1]));
        assert(digit_value(s.last()) < 10);
        assert(digits_value(t) + 1 <= pow10(t.len()));
        lemma_mul_inequality(digits_value(t) as int + 1, pow10(t.len()) as int, 10);
        assert(pow10(s.len()) == 10 * pow10(t.len()));
    }
}

proof fn lemma_digits_push(s: Seq<char>, c: char)
    ensures
        digits_value(s.push(c)) == digits_value(s) * 10 + digit_value(c),
{
    assert(s.push(c).drop_last() =~= s);
}

proof fn lemma_dot_unique(s: Seq<char>, i: int, j: int)
    requires
        dot_at(s, i),
        0 <= j < s.len(),
        s[j] == '.',
    ensures
        i == j,
{
    if j < i {
        assert(s.take(i)[j] == s[j]);
    } else if i < j {
        assert(s.skip(i + 1)[j - i - 1] == s[j]);
    }
}

/// A character that is neither a digit nor a point spells no amount.
proof fn lemma_bad_char(s: Seq<char>, k: int)
    requires
        0 <= k < s.len(),
        !is_digit(s[k]),
        s[k] != '.',
    ensures
        decimal_value(s) is None,
{
    assert(!all_digits(s));
    assert forall|j: int| !dot_at(s, j) by {
        if dot_at(s, j) {
            if k < j {
                assert(s.take(j)[k] == s[k]);
            } else if j < k {
                assert(s.skip(j + 1)[k - j - 1] == s[k]);
            }
        }
    }
}

/// Two points spell no amount.
proof fn lemma_two_dots(s: Seq<char>, d: int, k: int)
    requires
        0 <= d < k < s.len(),
        s[d] == '.',
        s[k] == '.',
    ensures
        decimal_value(s) is None,
{
    assert(!is_digit(s[d]));
    assert(!all_digits(s));
    assert forall|j: int| !dot_at(s, j) by {
        if dot_at(s, j) {
            lemma_dot_unique(s, j, d);
            lemma_dot_unique(s, j, k);
        }
    }
}

/// Nineteen leading digits spell no amount.
proof fn lemma_long_whole(s: Seq<char>)
    requires
        s.len() >= 19,
        all_digits(s.take(19)),
    ensures
        decimal_value(s) is None,
{
    if !all_digits(s) && exists|i: int| dot_at(s, i) {
        let i = choose|i: int| dot_at(s, i);
        if i < 19 {
            assert(s.take(19)[i] == s[i]);
        }
    }
}

/// Nineteen digits after the point spell no amount.
proof fn lemma_long_fraction(s: Seq<char>, d: int)
    requires
        0 <= d,
        d + 20 <= s.len(),
        s[d] == '.',
    ensures
        decimal_value(s) is None,
{
    assert(!is_digit(s[d]));
    assert(!all_digits(s));
    if exists|i: int| dot_at(s, i) {
        let i = choose|i: int| dot_at(s, i);
        lemma_dot_unique(s, i, d);
    }
}

// ---------------------------------------------------------------- exec

/// `10^n` as an integer.
pub fn pow10_exec(n: usize) -> (r: u128)
    requires
        n <= 36,
    ensures
        r as nat == pow10(n as nat),
{
    let mut r: u128 = 1;
    let mut i: usize = 0;
    while i < n
        invariant
            i <= n <= 36,
            r as nat == pow10(i as nat),
        decreases n - i,
    {
        proof {
            lemma_pow10_monotone((i + 1) as nat, 36);
            lemma_pow10_18();
        }
        r = r * 10;
        i += 1;
    }
    r
}

/// Reads a decimal string into an amount of `10^-18` units.
pub fn parse_amount(s: &str) -> (r: Option<u128>)
    ensures
        amount_view(r) == decimal_value(s@),
        r matches Some(a) ==> a <= MAX_AMOUNT,
{
    let n = s.unicode_len();
    let ghost t = s@;
    let mut i: usize = 0;
    let mut whole: u128 = 0;
    let mut frac: u128 = 0;
    let mut frac_len: usize = 0;
    let mut dot: Option<usize> = None;
    proof {
        lemma_pow10_18();
    }
    while i < n
        invariant
            t == s@,
            n == t.len(),
            i <= n,
            pow10(18) == ONE,
            match dot {
                None => {
                    &&& i <= 18
                    &&& frac_len == 0
                    &&& frac == 0
                    &&& all_digits(t.take(i as int))
                    &&& whole as nat == digits_value(t.take(i as int))
                },
                Some(d) => {
                    &&& d < i
                    &&& d <= 18
                    &&& t[d as int] == '.'
                    &&& all_digits(t.take(d as int))
                    &&& whole as nat == digits_value(t.take(d as int))
                    &&& frac_len == i - d - 1
                    &&& frac_len <= 18
                    &&& all_digits(t.subrange(d + 1, i as int))
                    &&& frac as nat == digits_value(t.subrange(d + 1, i as int))
                },
            },
        decreases n - i,
    {
        let c = s.get_char(i);
        if c == '.' {
            match dot {
                Some(d) => {
                    proof {
                        lemma_two_dots(t, d as int, i as int);
                    }
                    return None;
                },
                None => {
                    dot = Some(i);
                    proof {
                        assert(t.subrange(i + 1, i + 1) =~= Seq::<char>::empty());
                    }
                },
            }
        } else if '0' <= c && c <= '9' {
            let v = (c as u32 - 48) as u128;
            match dot {
                None => {
                    if i == 18 {
                        proof {
                            assert(t.take(19) =~= t.take(18).push(c));
                            lemma_long_whole(t);
                        }
                        return None;
                    }
                    proof {
                        lemma_digits_bound(t.take(i as int));
                        lemma_pow10_monotone(i as nat, 17);
                        reveal_with_fuel(pow10, 18);
                        assert(t.take(i + 1) =~= t.take(i as int).push(c));
                        lemma_digits_push(t.take(i as int), c);
                        let h = t.take(i + 1);
                        assert(all_digits(h)) by {
                            assert forall|j: int| 0 <= j < h.len() implies is_digit(h[j]) by {
                                if j < i {
                                    assert(h[j] == t.take(i as int)[j]);
                                }
                            }
                        }
                    }
                    whole = whole * 10 + v;
                },
                Some(d) => {
                    if frac_len == 18 {
                        proof {
                            lemma_long_fraction(t, d as int);
                        }
                        return None;
                    }
                    proof {
                        let f = t.subrange(d + 1, i as int);
                        lemma_digits_bound(f);
                        lemma_pow10_monotone(f.len(), 17);
                        reveal_with_fuel(pow10, 18);
                        assert(t.subrange(d + 1, i + 1) =~= f.push(c));
                        lemma_digits_push(f, c);
                        let g = t.subrange(d + 1, i + 1);
                        assert(all_digits(g)) by {
                            assert forall|j: int| 0 <= j < g.len() implies is_digit(g[j]) by {
                                if j < f.len() {
                                    assert(g[j] == f[j]);
                                }
                            }
                        }
                    }
                    frac = frac * 10 + v;
                    frac_len = frac_len + 1;
                },
            }
        } else {
            proof {
                lemma_bad_char(t, i as int);
            }
            return None;
        }
        i += 1;
    }
    match dot {
        None => {
            assert(t.take(n as int) =~= t);
            if n == 0 {
                return None;
            }
            proof {
                lemma_digits_bound(t);
                lemma_pow10_monotone(n as nat, 18);
                assert(whole * ONE <= (ONE - 1) * ONE) by (nonlinear_arith)
                    requires
                        whole <= ONE - 1,
                ;
            }
            assert(whole * ONE <= MAX_AMOUNT);
            Some(whole * ONE)
        },
        Some(d) => {
            let ghost w = t.take(d as int);
            let ghost f = t.skip(d + 1);
            assert(f =~= t.subrange(d + 1, n as int));
            assert(dot_at(t, d as int));
            proof {
                let c = choose|j: int| dot_at(t, j);
                lemma_dot_unique(t, c, d as int);
                assert(!is_digit(t[d as int]));
            }
            if d == 0 {
                return None;
            }
            let scale = pow10_exec(18 - frac_len);
            proof {
                lemma_digits_bound(w);
                lemma_digits_bound(f);
                lemma_pow10_monotone(d as nat, 18);
                lemma_pow10_add(frac_len as nat, (18 - frac_len) as nat);
                assert(frac_len as nat + (18 - frac_len) as nat == 18);
                let fp = pow10(frac_len as nat);
                lemma_pow10_positive((18 - frac_len) as nat);
                assert(frac + 1 <= fp);
                assert(fp * scale == ONE);
                assert(frac * scale <= ONE - scale) by (nonlinear_arith)
                    requires
                        frac + 1 <= fp,
                        fp * scale == ONE,
                ;
                assert(whole <= ONE - 1);
                assert(whole * ONE <= (ONE - 1) * ONE) by (nonlinear_arith)
                    requires
                        whole <= ONE - 1,
                ;
            }
            assert(whole * ONE + frac * scale <= MAX_AMOUNT);
            Some(whole * ONE + frac * scale)
        },
    }
}


/// `n` written with exactly `width` digits, most significant first.
pub open spec fn padded_text(n: nat, width: nat) -> Seq<char>
    decreases width,
{
    if width == 0 {
        Seq::empty()
    } else {
        padded_text(n / 10, (width - 1) as nat).push(((n % 10 + 48) as u8) as char)
    }
}

proof fn lemma_padded_text(n: nat, width: nat)
    requires
        n < pow10(width),
    ensures
        padded_text(n, width).len() == width,
        all_digits(padded_text(n, width)),
        digits_value(padded_text(n, width)) == n,
    decreases width,
{
    if width > 0 {
        let w = (width - 1) as nat;
        let c = ((n % 10 + 48) as u8) as char;
        assert(n / 10 < pow10(w)) by {
            lemma_drop_last_digit(n, w);
        }
        lemma_padded_text(n / 10, w);
        lemma_digits_push(padded_text(n / 10, w), c);
        let t = padded_text(n, width);
        assert(all_digits(t)) by {
            assert forall|i: int| 0 <= i < t.len() implies is_digit(t[i]) by {
                if i < w {
                    assert(t[i] == padded_text(n / 10, w)[i]);
                }
            }
        }
        lemma_fundamental_div_mod(n as int, 10);
    } else {
        assert(n == 0);
    }
}

proof fn lemma_drop_last_digit(n: nat, w: nat)
    requires
        n < pow10(w + 1),
    ensures
        n / 10 < pow10(w),
{
    assert(pow10(w + 1) == 10 * pow10(w));
    lemma_div_is_ordered(n as int, (pow10(w + 1) - 1) as int, 10);
    assert((10 * pow10(w) - 1) / 10 < pow10(w)) by (nonlinear_arith)
        requires
            pow10(w) >= 0,
    ;
}

/// Appends `n` written with exactly `width` digits.
fn push_padded(out: &mut String, n: u128, width: usize)
    requires
        width <= 36,
        n < pow10(width as nat),
    ensures
        final(out)@ == old(out)@ + padded_text(n as nat, width as nat),
{
    let ghost start = out@;
    let mut j: usize = 0;
    let mut q: u128 = pow10_exec(width);
    proof {
        lemma_div_basics(n as int);
        assert(n as nat / q as nat == 0) by {
            lemma_basic_div(n as int, q as int);
        }
        assert(out@ =~= start + padded_text(0, 0));
    }
    while j < width
        invariant
            j <= width <= 36,
            q as nat == pow10((width - j) as nat),
            out@ == start + padded_text(n as nat / q as nat, j as nat),
        decreases width - j,
    {
        let ghost old_q = q;
        proof {
            lemma_pow10_positive((width - j - 1) as nat);
            assert(pow10((width - j) as nat) == 10 * pow10((width - j - 1) as nat));
        }
        q = q / 10;
        proof {
            assert(q * 10 == old_q);
            lemma_div_denominator(n as int, q as int, 10);
        }
        let d = (n / q) % 10;
        push_char(out, ((d + 48) as u8) as char);
        j = j + 1;
        proof {
            assert(out@ =~= start + padded_text(n as nat / q as nat, j as nat));
        }
    }
    proof {
        assert(q == 1);
    }
}

/// Number of digits needed to write `n` (one for zero).
pub open spec fn num_digits(n: nat) -> nat
    decreases n,
{
    if n < 10 {
        1
    } else {
        1 + num_digits(n / 10)
    }
}

/// `n` in decimal digits, without leading zeros.
pub open spec fn integer_text(n: nat) -> Seq<char> {
    padded_text(n, num_digits(n))
}

/// How many zero digits `f` ends with (none for zero).
pub open spec fn trailing_zeros(f: nat) -> nat
    decreases f,
{
    if f > 0 && f % 10 == 0 {
        1 + trailing_zeros(f / 10)
    } else {
        0
    }
}

/// The text `format_amount` writes for `a`: the whole part without leading
/// zeros and, when `a` is not whole, a point and the eighteen fraction digits
/// without their trailing zeros.
pub open spec fn amount_text(a: nat) -> Seq<char> {
    let whole = a / pow10(18);
    let frac = a % pow10(18);
    if frac == 0 {
        integer_text(whole)
    } else {
        let t = trailing_zeros(frac);
        integer_text(whole) + seq!['.'] + padded_text(frac / pow10(t), (18 - t) as nat)
    }
}

proof fn lemma_num_digits(n: nat, w: nat)
    requires
        1 <= w,
        n < pow10(w),
        w == 1 || pow10((w - 1) as nat) <= n,
    ensures
        num_digits(n) == w,
    decreases w,
{
    if w == 1 {
        reveal_with_fuel(pow10, 2);
    } else {
        let v = (w - 1) as nat;
        assert(pow10(v) >= 10) by {
            lemma_pow10_monotone(1, v);
            reveal_with_fuel(pow10, 2);
        }
        lemma_drop_last_digit(n, v);
        if v > 1 {
            assert(pow10(v) == 10 * pow10((v - 1) as nat));
            lemma_div_is_ordered(pow10(v) as int, n as int, 10);
            lemma_div_multiples_vanish(pow10((v - 1) as nat) as int, 10);
        }
        lemma_num_digits(n / 10, v);
    }
}

proof fn lemma_first_digit(n: nat, w: nat)
    requires
        1 <= w,
        1 <= n,
        n < pow10(w),
        w == 1 || pow10((w - 1) as nat) <= n,
    ensures
        padded_text(n, w)[0] != '0',
    decreases w,
{
    if w == 1 {
        reveal_with_fuel(pow10, 2);
        lemma_small_mod(n, 10);
        assert(padded_text(n, 1) =~= padded_text(n / 10, 0).push(((n % 10 + 48) as u8) as char));
    } else {
        let v = (w - 1) as nat;
        assert(pow10(v) >= 10) by {
            lemma_pow10_monotone(1, v);
            reveal_with_fuel(pow10, 2);
        }
        lemma_drop_last_digit(n, v);
        lemma_div_is_ordered(10, n as int, 10);
        if v > 1 {
            assert(pow10(v) == 10 * pow10((v - 1) as nat));
            lemma_div_is_ordered(pow10(v) as int, n as int, 10);
            lemma_div_multiples_vanish(pow10((v - 1) as nat) as int, 10);
        }
        lemma_first_digit(n / 10, v);
        lemma_padded_text(n / 10, v);
        assert(padded_text(n, w)[0] == padded_text(n / 10, v)[0]);
    }
}

/// The text of an integer is its digits, spelling exactly the integer, with
/// no leading zero unless the integer is zero.
pub proof fn lemma_integer_text(n: nat)
    ensures
        integer_text(n).len() == num_digits(n),
        all_digits(integer_text(n)),
        digits_value(integer_text(n)) == n,
        n > 0 ==> integer_text(n)[0] != '0',
    decreases n,
{
    lemma_num_digits_bound(n);
    lemma_padded_text(n, num_digits(n));
    if n > 0 {
        lemma_first_digit(n, num_digits(n));
    }
}

proof fn lemma_num_digits_bound(n: nat)
    ensures
        1 <= num_digits(n),
        n < pow10(num_digits(n)),
        num_digits(n) == 1 || pow10((num_digits(n) - 1) as nat) <= n,
    decreases n,
{
    if n < 10 {
        reveal_with_fuel(pow10, 2);
    } else {
        lemma_num_digits_bound(n / 10);
        let v = num_digits(n / 10);
        assert(pow10(v + 1) == 10 * pow10(v));
        lemma_fundamental_div_mod(n as int, 10);
        if v > 1 {
            assert(pow10(v) == 10 * pow10((v - 1) as nat));
        } else {
            reveal_with_fuel(pow10, 2);
        }
    }
}

/// Writes a number below `10^18` in decimal digits, without leading zeros.
pub fn format_integer(n: u128) -> (r: String)
    requires
        n < ONE,
    ensures
        r@ == integer_text(n as nat),
        1 <= r@.len() <= 18,
{
    proof {
        lemma_pow10_18();
    }
    let mut len: usize = 1;
    let mut q: u128 = 10;
    proof {
        reveal_with_fuel(pow10, 2);
    }
    while q <= n
        invariant
            1 <= len <= 18,
            q as nat == pow10(len as nat),
            n < ONE,
            pow10(18) == ONE,
            q <= n ==> len < 18,
            len == 1 || pow10((len - 1) as nat) <= n,
        decreases 18 - len,
    {
        proof {
            lemma_pow10_monotone((len + 1) as nat, 18);
            if len + 1 < 18 {
                lemma_pow10_monotone((len + 2) as nat, 18);
            }
            assert(pow10((len + 1) as nat) == 10 * pow10(len as nat));
        }
        q = q * 10;
        len = len + 1;
        proof {
            if len >= 18 {
                lemma_pow10_monotone(18, len as nat);
            }
        }
    }
    let mut r = String::new();
    push_padded(&mut r, n, len);
    proof {
        lemma_num_digits(n as nat, len as nat);
        lemma_padded_text(n as nat, len as nat);
        assert(r@ =~= padded_text(n as nat, len as nat));
    }
    r
}

/// Writes an amount as a plain decimal: whole digits without leading zeros,
/// then, when the amount is not whole, a point and the fraction without
/// trailing zeros.
pub fn format_amount(a: u128) -> (r: String)
    requires
        a <= MAX_AMOUNT,
    ensures
        r@ == amount_text(a as nat),
        decimal_value(r@) == Some(a as nat),
{
    proof {
        lemma_pow10_18();
    }
    let whole = a / ONE;
    let frac = a % ONE;
    assert(whole < ONE) by (nonlinear_arith)
        requires
            whole == a / ONE,
            a <= MAX_AMOUNT,
    ;
    let mut r = format_integer(whole);
    proof {
        lemma_integer_text(whole as nat);
    }
    let len = r.as_str().unicode_len();
    if frac == 0 {
        proof {
            lemma_fundamental_div_mod(a as int, ONE as int);
            lemma_pow10_monotone(len as nat, 18);
        }
        return r;
    }
    let ghost w = r@;
    let mut f = frac;
    let mut t: usize = 0;
    assert(pow10(0) == 1);
    while f % 10 == 0
        invariant
            t < 18,
            f >= 1,
            f as nat * pow10(t as nat) == frac as nat,
            trailing_zeros(frac as nat) == t + trailing_zeros(f as nat),
            frac < ONE,
            pow10(18) == ONE,
        decreases f,
    {
        proof {
            lemma_fundamental_div_mod(f as int, 10);
            assert(pow10((t + 1) as nat) == 10 * pow10(t as nat));
            assert((f / 10) as nat * pow10((t + 1) as nat) == frac as nat) by (nonlinear_arith)
                requires
                    f as nat * pow10(t as nat) == frac as nat,
                    f == 10 * (f / 10),
                    pow10((t + 1) as nat) == 10 * pow10(t as nat),
            ;
            if t + 1 >= 18 {
                lemma_pow10_monotone(18, (t + 1) as nat);
                assert((f / 10) as nat * pow10((t + 1) as nat) >= pow10((t + 1) as nat)) by (nonlinear_arith)
                    requires
                        f / 10 >= 1,
                ;
            }
        }
        f = f / 10;
        t = t + 1;
    }
    let fw: usize = 18 - t;
    proof {
        lemma_pow10_add(fw as nat, t as nat);
        assert(fw as nat + t as nat == 18);
        lemma_pow10_positive(t as nat);
        assert(f < pow10(fw as nat)) by (nonlinear_arith)
            requires
                f as nat * pow10(t as nat) == frac as nat,
                frac < pow10(fw as nat) * pow10(t as nat),
                pow10(t as nat) >= 1,
        ;
        lemma_div_by_multiple(f as int, pow10(t as nat) as int);
        assert(frac as nat / pow10(t as nat) == f);
        assert(trailing_zeros(f as nat) == 0);
    }
    push_char(&mut r, '.');
    push_padded(&mut r, f, fw);
    proof {
        let ft = padded_text(f as nat, fw as nat);
        lemma_padded_text(f as nat, fw as nat);
        let s = r@;
        assert(s =~= w + seq!['.'] + ft);
        assert(s.take(len as int) =~= w);
        assert(s.skip(len + 1) =~= ft);
        lemma_pow10_monotone(len as nat, 18);
        assert(dot_at(s, len as int));
        let c = choose|j: int| dot_at(s, j);
        lemma_dot_unique(s, c, len as int);
        assert(!is_digit(s[len as int]));
        lemma_fundamental_div_mod(a as int, ONE as int);
        assert((18 - ft.len()) as nat == t as nat);
    }
    r
}

/// `percentage` percent of `value`, rounded down to the smallest unit.
pub fn percent_of(value: u128, percentage: u8) -> (r: u128)
    requires
        value <= MAX_AMOUNT,
    ensures
        r as nat == percent_of_spec(value as nat, percentage as nat),
        percentage <= 100 ==> r <= value,
{
    assert(value * percentage <= MAX_AMOUNT * 255) by (nonlinear_arith)
        requires
            value <= MAX_AMOUNT,
            percentage <= 255,
    ;
    let r = value * (percentage as u128) / 100;
    assert(percentage <= 100 ==> r <= value) by (nonlinear_arith)
        requires
            r == value * percentage / 100,
    ;
    r
}

/// Decimal digits kept by an increment (see `increment_decimals`).
pub fn decimals_of(increment: u128) -> (r: usize)
    ensures
        r as nat == increment_decimals(increment as nat),
        r <= 18,
{
    proof {
        lemma_pow10_18();
    }
    let mut d: usize = 18;
    while d > 0
        invariant
            d <= 18,
            pow10(18) == ONE,
            decimals_from(increment as nat, d as nat) == increment_decimals(increment as nat),
        decreases d,
    {
        let p = pow10_exec(d);
        proof {
            lemma_pow10_positive(d as nat);
            lemma_pow10_monotone(d as nat, 18);
        }
        if increment <= ONE / p {
            proof {
                assert(increment * p <= ONE) by (nonlinear_arith)
                    requires
                        increment <= ONE / p,
                        p >= 1,
                ;
            }
            return d;
        }
        proof {
            assert(increment * p > ONE) by (nonlinear_arith)
                requires
                    increment > ONE / p,
                    p >= 1,
            ;
        }
        d = d - 1;
    }
    0
}

/// `value` cut down (never rounded up) to `d` decimal digits.
pub fn truncate(value: u128, d: usize) -> (r: u128)
    requires
        d <= 18,
    ensures
        r as nat == truncated(value as nat, d as nat),
        r <= value,
{
    let unit = pow10_exec(18 - d);
    proof {
        lemma_pow10_positive((18 - d) as nat);
        lemma_mod_decreases(value as nat, unit as nat);
    }
    value - value % unit
}

/// Cuts `value` down to the decimal digits that `increment` keeps.
pub fn with_increment(value: u128, increment: u128) -> (r: u128)
    ensures
        r as nat == with_increment_spec(value as nat, increment as nat),
        r <= value,
{
    let d = decimals_of(increment);
    truncate(value, d)
}

} // verus!
