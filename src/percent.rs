//! The signed decimal percentage argument of a volume change, such as `+1%`,
//! `-0.5%` or `5e-1%`.
use vstd::prelude::*;

verus! {

/// Values above this many millionths of a percent (a thousand million
/// percent) are taken as this many.
pub const VALUE_CAP: u64 = 1_000_000_000_000_000;

/// Exponents are read up to this bound; any larger one moves every digit
/// past the cap or past the sixth fraction digit.
const EXP_CAP: u128 = 0x1_0000_0000_0000_0100;

pub open spec fn is_digit(c: char) -> bool {
    '0' <= c <= '9'
}

pub open spec fn all_digits(s: Seq<char>) -> bool {
    forall|i: int| 0 <= i < s.len() ==> is_digit(#[trigger] s[i])
}

pub open spec fn digit_value(c: char) -> int {
    c as int - '0' as int
}

/// The number that a run of decimal digits writes.
pub open spec fn digits_value(s: Seq<char>) -> int
    decreases s.len(),
{
    if s.len() == 0 {
        0
    } else {
        digits_value(s.drop_last()) * 10 + digit_value(s.last())
    }
}

pub open spec fn pow10(n: nat) -> int
    decreases n,
{
    if n == 0 {
        1
    } else {
        10 * pow10((n - 1) as nat)
    }
}

pub open spec fn cap_at(v: int, c: int) -> int {
    if v > c {
        c
    } else {
        v
    }
}

pub open spec fn zeros(n: nat) -> Seq<char> {
    Seq::new(n, |i: int| '0')
}

/// The digits `g` with the decimal point moved `shift` places to the right:
/// zeros appended, or digits dropped from the end.
pub open spec fn shifted(g: Seq<char>, shift: int) -> Seq<char> {
    if shift >= 0 {
        g + zeros(shift as nat)
    } else if g.len() + shift > 0 {
        g.take(g.len() + shift)
    } else {
        Seq::empty()
    }
}

/// Where the run of digits of `b` that starts at `i` ends.
pub open spec fn run_end(b: Seq<char>, i: int) -> int
    decreases b.len() - i,
{
    if 0 <= i < b.len() && is_digit(b[i]) {
        run_end(b, i + 1)
    } else {
        i
    }
}

/// The end of the whole-number digits.
pub open spec fn int_end(b: Seq<char>) -> int {
    run_end(b, 0)
}

pub open spec fn has_dot(b: Seq<char>) -> bool {
    int_end(b) < b.len() && b[int_end(b)] == '.'
}

/// The end of the mantissa: whole digits, then a dot and fraction digits.
pub open spec fn mantissa_end(b: Seq<char>) -> int {
    if has_dot(b) {
        run_end(b, int_end(b) + 1)
    } else {
        int_end(b)
    }
}

pub open spec fn fraction_digits(b: Seq<char>) -> Seq<char> {
    if has_dot(b) {
        b.subrange(int_end(b) + 1, mantissa_end(b))
    } else {
        Seq::empty()
    }
}

/// All digits of the mantissa, the dot left out.
pub open spec fn mantissa_digits(b: Seq<char>) -> Seq<char> {
    b.take(int_end(b)) + fraction_digits(b)
}

pub open spec fn has_exponent(b: Seq<char>) -> bool {
    mantissa_end(b) < b.len() && (b[mantissa_end(b)] == 'e' || b[mantissa_end(b)] == 'E')
}

pub open spec fn exponent_negative(b: Seq<char>) -> bool {
    mantissa_end(b) + 1 < b.len() && b[mantissa_end(b) + 1] == '-'
}

/// Where the exponent's digits start, after the `e` and an optional sign.
pub open spec fn exponent_start(b: Seq<char>) -> int {
    let s = mantissa_end(b) + 1;
    if s < b.len() && (b[s] == '+' || b[s] == '-') {
        s + 1
    } else {
        s
    }
}

/// An unsigned decimal `([0-9]+(\.[0-9]*)?|\.[0-9]+)([eE][+-]?[0-9]+)?`:
/// at least one mantissa digit, then nothing or a complete exponent.
pub open spec fn valid_number(b: Seq<char>) -> bool {
    mantissa_digits(b).len() > 0 && (mantissa_end(b) == b.len() || (has_exponent(b)
        && exponent_start(b) < b.len() && run_end(b, exponent_start(b)) == b.len()))
}

pub open spec fn exponent_value(b: Seq<char>) -> int {
    if has_exponent(b) {
        let v = digits_value(b.subrange(exponent_start(b), b.len() as int));
        if exponent_negative(b) {
            -v
        } else {
            v
        }
    } else {
        0
    }
}

/// The value of a valid number in millionths, cut toward zero and capped.
pub open spec fn number_millionths(b: Seq<char>) -> int {
    let shift = exponent_value(b) + 6 - fraction_digits(b).len();
    cap_at(digits_value(shifted(mantissa_digits(b), shift)), VALUE_CAP as int)
}

pub open spec fn sign_len(s: Seq<char>) -> int {
    if s.len() > 0 && (s[0] == '+' || s[0] == '-') {
        1
    } else {
        0
    }
}

/// What stands between the optional sign and the final `%`.
pub open spec fn number_part(s: Seq<char>) -> Seq<char> {
    s.subrange(sign_len(s), s.len() - 1)
}

/// Text of the shape `[+-]?NUMBER%`.
pub open spec fn is_percentage_text(s: Seq<char>) -> bool {
    s.len() >= 1 && s.last() == '%' && sign_len(s) <= s.len() - 1 && valid_number(number_part(s))
}

/// The signed value of a percentage text, in millionths of a percent.
pub open spec fn percentage_value(s: Seq<char>) -> int {
    let v = number_millionths(number_part(s));
    if s[0] == '-' {
        -v
    } else {
        v
    }
}

proof fn lemma_digits_step(s: Seq<char>, from: int, k: int)
    requires
        0 <= from <= k < s.len(),
    ensures
        digits_value(s.subrange(from, k + 1)) == digits_value(s.subrange(from, k)) * 10
            + digit_value(s[k]),
{
    assert(s.subrange(from, k + 1).drop_last() =~= s.subrange(from, k));
}

proof fn lemma_cap_step(x: int, d: int, c: int)
    requires
        x >= 0,
        0 <= d <= 9,
        c >= 0,
    ensures
        cap_at(x * 10 + d, c) == cap_at(cap_at(x, c) * 10 + d, c),
{
}

proof fn lemma_digits_concat(a: Seq<char>, b: Seq<char>)
    ensures
        digits_value(a + b) == digits_value(a) * pow10(b.len()) + digits_value(b),
    decreases b.len(),
{
    if b.len() == 0 {
        assert(a + b =~= a);
    } else {
        assert((a + b).drop_last() =~= a + b.drop_last());
        lemma_digits_concat(a, b.drop_last());
        let x = digits_value(a);
        let p = pow10((b.len() - 1) as nat);
        let y = digits_value(b.drop_last());
        assert((x * p + y) * 10 + digit_value(b.last()) == x * (10 * p) + (y * 10 + digit_value(
            b.last(),
        ))) by (nonlinear_arith);
    }
}

proof fn lemma_zeros_value(n: nat)
    ensures
        digits_value(zeros(n)) == 0,
    decreases n,
{
    if n > 0 {
        assert(zeros(n).drop_last() =~= zeros((n - 1) as nat));
        lemma_zeros_value((n - 1) as nat);
    }
}

proof fn lemma_pow10_mono(a: nat, b: nat)
    requires
        a <= b,
    ensures
        1 <= pow10(a) <= pow10(b),
    decreases b,
{
    if a < b {
        lemma_pow10_mono(a, (b - 1) as nat);
    } else if a > 0 {
        lemma_pow10_mono((a - 1) as nat, (a - 1) as nat);
    }
}

proof fn lemma_digits_nonneg(s: Seq<char>)
    requires
        all_digits(s),
    ensures
        digits_value(s) >= 0,
    decreases s.len(),
{
    if s.len() > 0 {
        lemma_digits_nonneg(s.drop_last());
    }
}

fn chars_of(s: &str) -> (r: Vec<char>)
    ensures
        r@ == s@,
{
    let n = s.unicode_len();
    let mut r: Vec<char> = Vec::with_capacity(n);
    let mut i: usize = 0;
    while i < n
        invariant
            n == s@.len(),
            i <= n,
            r@ == s@.take(i as int),
        decreases n - i,
    {
        r.push(s.get_char(i));
        i = i + 1;
        assert(r@ =~= s@.take(i as int));
    }
    assert(s@.take(n as int) =~= s@);
    r
}

/// Appends `b[from..to]` to `out`.
fn push_range(out: &mut Vec<char>, b: &Vec<char>, from: usize, to: usize)
    requires
        from <= to <= b@.len(),
    ensures
        final(out)@ == old(out)@ + b@.subrange(from as int, to as int),
{
    let ghost start = out@;
    let mut k: usize = from;
    while k < to
        invariant
            from <= k <= to <= b@.len(),
            out@ == start + b@.subrange(from as int, k as int),
        decreases to - k,
    {
        out.push(b[k]);
        k = k + 1;
        assert(out@ =~= start + b@.subrange(from as int, k as int));
    }
}

/// The end of the run of digits of `b` that starts at `from`.
fn scan_run(b: &Vec<char>, from: usize) -> (r: usize)
    requires
        from <= b@.len(),
    ensures
        r == run_end(b@, from as int),
        from <= r <= b@.len(),
        all_digits(b@.subrange(from as int, r as int)),
{
    let mut k: usize = from;
    while k < b.len() && '0' <= b[k] && b[k] <= '9'
        invariant
            from <= k <= b@.len(),
            run_end(b@, from as int) == run_end(b@, k as int),
            all_digits(b@.subrange(from as int, k as int)),
        decreases b@.len() - k,
    {
        assert forall|i: int| 0 <= i < k + 1 - from implies is_digit(
            #[trigger] b@.subrange(from as int, k + 1)[i],
        ) by {
            if i < k - from {
                assert(b@.subrange(from as int, k + 1)[i] == b@.subrange(from as int, k as int)[i]);
            }
        }
        k = k + 1;
    }
    k
}

/// The value of the digits `b[from..to]`, capped at `cap`.
fn digits_capped(b: &Vec<char>, from: usize, to: usize, cap: u128) -> (r: u128)
    requires
        from <= to <= b@.len(),
        all_digits(b@.subrange(from as int, to as int)),
        cap <= 0x1_0000_0000_0000_0000_0000_0000_0000,
    ensures
        r == cap_at(digits_value(b@.subrange(from as int, to as int)), cap as int),
        r <= cap,
{
    let mut k: usize = from;
    let mut acc: u128 = 0;
    assert(b@.subrange(from as int, from as int) =~= Seq::<char>::empty());
    while k < to
        invariant
            from <= k <= to <= b@.len(),
            all_digits(b@.subrange(from as int, to as int)),
            cap <= 0x1_0000_0000_0000_0000_0000_0000_0000,
            acc == cap_at(digits_value(b@.subrange(from as int, k as int)), cap as int),
            acc <= cap,
            digits_value(b@.subrange(from as int, k as int)) >= 0,
        decreases to - k,
    {
        assert(b@.subrange(from as int, to as int)[k - from] == b@[k as int]);
        let d: u128 = (b[k] as u32 - '0' as u32) as u128;
        proof {
            lemma_digits_step(b@, from as int, k as int);
            lemma_cap_step(digits_value(b@.subrange(from as int, k as int)), d as int, cap as int);
        }
        let t: u128 = acc * 10 + d;
        acc = if t > cap {
            cap
        } else {
            t
        };
        k = k + 1;
    }
    acc
}

/// The mantissa of `b`: where it ends, its digits, and how many of them
/// follow the dot.
fn scan_mantissa(b: &Vec<char>) -> (r: (usize, Vec<char>, usize))
    ensures
        r.0 == mantissa_end(b@),
        r.0 <= b@.len(),
        r.1@ == mantissa_digits(b@),
        all_digits(r.1@),
        r.2 == fraction_digits(b@).len(),
{
    let n = b.len();
    let i1 = scan_run(b, 0);
    let dot = i1 < n && b[i1] == '.';
    let i2 = if dot {
        scan_run(b, i1 + 1)
    } else {
        i1
    };
    let frac_len: usize = if dot {
        i2 - i1 - 1
    } else {
        0
    };
    let mut g: Vec<char> = Vec::new();
    push_range(&mut g, b, 0, i1);
    if dot {
        push_range(&mut g, b, i1 + 1, i2);
    }
    assert(b@.take(i1 as int) =~= b@.subrange(0, i1 as int));
    assert(g@ =~= mantissa_digits(b@));
    assert forall|i: int| 0 <= i < g@.len() implies is_digit(#[trigger] g@[i]) by {
        if i >= i1 {
            assert(g@[i] == b@.subrange(i1 + 1, i2 as int)[i - i1]);
        } else {
            assert(g@[i] == b@.subrange(0, i1 as int)[i]);
        }
    }
    (i2, g, frac_len)
}

/// The digits `g` with the point moved `shift` places, capped.
fn shifted_value(g: &Vec<char>, shift: i128) -> (r: u64)
    requires
        all_digits(g@),
    ensures
        r == cap_at(digits_value(shifted(g@, shift as int)), VALUE_CAP as int),
{
    let glen = g.len();
    let ghost dv = digits_value(g@);
    proof {
        lemma_digits_nonneg(g@);
        assert(g@.subrange(0, glen as int) =~= g@);
    }
    if shift >= 0 {
        let mut acc: u64 = digits_capped(g, 0, glen, VALUE_CAP as u128) as u64;
        let mut k: i128 = 0;
        proof {
            reveal_with_fuel(pow10, 1);
        }
        while k < shift && 0 < acc && acc < VALUE_CAP
            invariant
                0 <= k <= shift,
                dv >= 0,
                acc == cap_at(dv * pow10(k as nat), VALUE_CAP as int),
            decreases shift - k,
        {
            proof {
                assert(pow10((k + 1) as nat) == 10 * pow10(k as nat));
                assert(dv * pow10((k + 1) as nat) == (dv * pow10(k as nat)) * 10) by (
                nonlinear_arith)
                    requires
                        pow10((k + 1) as nat) == 10 * pow10(k as nat),
                ;
                lemma_pow10_mono(0, k as nat);
                assert(dv * pow10(k as nat) >= 0) by (nonlinear_arith)
                    requires
                        dv >= 0,
                        pow10(k as nat) >= 1,
                ;
                lemma_cap_step(dv * pow10(k as nat), 0, VALUE_CAP as int);
            }
            acc = if acc * 10 > VALUE_CAP {
                VALUE_CAP
            } else {
                acc * 10
            };
            k = k + 1;
        }
        proof {
            lemma_digits_concat(g@, zeros(shift as nat));
            lemma_zeros_value(shift as nat);
            lemma_pow10_mono(k as nat, shift as nat);
            if acc == 0 {
                assert(dv == 0) by (nonlinear_arith)
                    requires
                        dv >= 0,
                        pow10(k as nat) >= 1,
                        dv * pow10(k as nat) == 0,
                ;
                assert(dv * pow10(shift as nat) == 0) by (nonlinear_arith)
                    requires
                        dv == 0,
                ;
            } else if acc == VALUE_CAP {
                assert(dv * pow10(shift as nat) >= dv * pow10(k as nat)) by (nonlinear_arith)
                    requires
                        dv >= 0,
                        pow10(k as nat) <= pow10(shift as nat),
                ;
            }
        }
        acc
    } else {
        let keep: i128 = glen as i128 + shift;
        if keep <= 0 {
            return 0;
        }
        let v = digits_capped(g, 0, keep as usize, VALUE_CAP as u128);
        assert(g@.subrange(0, keep as int) =~= shifted(g@, shift as int));
        v as u64
    }
}

/// The digits `g` moved at least sixteen places left or right: all of them
/// past the sixth fraction digit, or past the cap unless they are all zero.
fn saturated_value(g: &Vec<char>, negative: bool, Ghost(shift): Ghost<int>) -> (r: u64)
    requires
        all_digits(g@),
        negative ==> g@.len() + shift <= 0,
        !negative ==> shift >= 16,
    ensures
        r == cap_at(digits_value(shifted(g@, shift)), VALUE_CAP as int),
{
    if negative {
        assert(shifted(g@, shift) =~= Seq::<char>::empty());
        return 0;
    }
    let glen = g.len();
    let ghost dv = digits_value(g@);
    proof {
        lemma_digits_nonneg(g@);
        assert(g@.subrange(0, glen as int) =~= g@);
    }
    let d = digits_capped(g, 0, glen, 1);
    proof {
        lemma_digits_concat(g@, zeros(shift as nat));
        lemma_zeros_value(shift as nat);
        lemma_pow10_mono(16, shift as nat);
        assert(pow10(16) == 10_000_000_000_000_000) by {
            reveal_with_fuel(pow10, 17);
        }
        if d == 1 {
            assert(dv * pow10(shift as nat) >= pow10(shift as nat)) by (nonlinear_arith)
                requires
                    dv >= 1,
                    pow10(shift as nat) >= 1,
            ;
        } else {
            assert(dv * pow10(shift as nat) == 0) by (nonlinear_arith)
                requires
                    dv == 0,
            ;
        }
    }
    if d == 0 {
        0
    } else {
        VALUE_CAP
    }
}

/// The value of an unsigned decimal in millionths; `None` when `b` is not
/// one.
fn number_value(b: &Vec<char>) -> (r: Option<u64>)
    ensures
        r is Some <==> valid_number(b@),
        r matches Some(v) ==> v == number_millionths(b@),
{
    let n = b.len();
    let (i2, g, frac_len) = scan_mantissa(b);
    if g.len() == 0 {
        return None;
    }
    let mut exp_neg = false;
    let mut exp: u128 = 0;
    if i2 < n {
        if !(b[i2] == 'e' || b[i2] == 'E') {
            return None;
        }
        let mut j = i2 + 1;
        if j < n && (b[j] == '+' || b[j] == '-') {
            exp_neg = b[j] == '-';
            j = j + 1;
        }
        assert(j == exponent_start(b@));
        assert(exp_neg == exponent_negative(b@));
        let i3 = scan_run(b, j);
        if i3 != n || i3 == j {
            return None;
        }
        exp = digits_capped(b, j, n, EXP_CAP);
        proof {
            lemma_digits_nonneg(b@.subrange(exponent_start(b@), n as int));
        }
    }
    let ghost shift_true = exponent_value(b@) + 6 - frac_len;
    if exp >= EXP_CAP {
        return Some(saturated_value(&g, exp_neg, Ghost(shift_true)));
    }
    let shift: i128 = if exp_neg {
        -(exp as i128)
    } else {
        exp as i128
    } + 6 - frac_len as i128;
    assert(shift == shift_true);
    Some(shifted_value(&g, shift))
}

/// Parses `[+-]?NUMBER%` into millionths of a percent, where NUMBER is
/// `([0-9]+(\.[0-9]*)?|\.[0-9]+)([eE][+-]?[0-9]+)?`. The value is cut toward
/// zero after the sixth fraction digit and capped at [`VALUE_CAP`]. `None`
/// when the text has another shape.
pub fn parse_percentage(text: &str) -> (r: Option<i64>)
    ensures
        r is Some <==> is_percentage_text(text@),
        r matches Some(v) ==> v == percentage_value(text@),
{
    let s = chars_of(text);
    let n = s.len();
    if n == 0 || s[n - 1] != '%' {
        return None;
    }
    let start: usize = if s[0] == '+' || s[0] == '-' {
        1
    } else {
        0
    };
    if start > n - 1 {
        return None;
    }
    let mut b: Vec<char> = Vec::new();
    push_range(&mut b, &s, start, n - 1);
    assert(b@ =~= number_part(text@));
    let magnitude = match number_value(&b) {
        Some(v) => v as i64,
        None => {
            return None;
        },
    };
    if s[0] == '-' {
        Some(-magnitude)
    } else {
        Some(magnitude)
    }
}

/// Whether `value` is a signed decimal percentage, such as `+1%`, `-0.5%` or
/// `1e3%`.
pub fn is_decimal_percentage(value: &str) -> (r: bool)
    ensures
        r == is_percentage_text(value@),
{
    parse_percentage(value).is_some()
}

} // verus!
