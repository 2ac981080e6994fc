use vstd::prelude::*;

verus! {

/// `String::push` appends one character at the end of the string.
pub assume_specification[ String::push ](string: &mut String, ch: char)
    ensures
        final(string)@ == old(string)@.push(ch),
;

/// The character of the decimal digit `d` (for `d` below ten).
pub open spec fn digit_char(d: nat) -> char {
    (d + 48) as char
}

/// The decimal numeral of `n`, as `format!("{}", n)` writes it: no sign,
/// no leading zeros, and `"0"` for zero.
pub open spec fn decimal(n: nat) -> Seq<char>
    decreases n,
{
    if n < 10 {
        seq![digit_char(n)]
    } else {
        decimal(n / 10).push(digit_char(n % 10))
    }
}

/// `n / d` rounded to the nearest integer, a tie going to the even one.
pub open spec fn round_half_even(n: nat, d: nat) -> nat
    recommends
        d > 0,
{
    let q = n / d;
    let r = n % d;
    if 2 * r > d || (2 * r == d && q % 2 == 1) {
        q + 1
    } else {
        q
    }
}

/// The spacing of the `f64` values next to the integer `v`: 1 below 2^53, and
/// doubling with each further binary digit of `v`.
pub open spec fn f64_spacing(v: nat) -> nat
    decreases v,
{
    if v < 0x20_0000_0000_0000 {
        1
    } else {
        2 * f64_spacing(v / 2)
    }
}

/// The value of `v as f64`: `v` rounded to the nearest multiple of its
/// spacing, a tie going to the even multiple.
pub open spec fn nearest_f64(v: nat) -> nat {
    round_half_even(v, f64_spacing(v)) * f64_spacing(v)
}

/// `v as f64 / divisor`, for a power of two `divisor`, written with one digit
/// after the point as `format!("{:.1}", ..)` does, counted in tenths: the
/// exact quotient rounded to the nearest tenth, a tie going to the even one.
pub open spec fn tenths_of(v: nat, divisor: nat) -> nat {
    round_half_even(nearest_f64(v) * 10, divisor)
}

/// A count of tenths written with one digit after the point, e.g. `12.3`.
pub open spec fn one_decimal(tenths: nat) -> Seq<char> {
    decimal(tenths / 10).push('.').push(digit_char(tenths % 10))
}

/// The character of the decimal digit `d`.
pub fn digit(d: u8) -> (c: char)
    requires
        d < 10,
    ensures
        c == digit_char(d as nat),
{
    (d + 48) as char
}

/// Appends the decimal numeral of `n` to `s`.
pub fn push_decimal(s: &mut String, n: u128)
    ensures
        final(s)@ == old(s)@ + decimal(n as nat),
    decreases n,
{
    if n >= 10 {
        push_decimal(s, n / 10);
    }
    let d = (n % 10) as u8;
    s.push(digit(d));
    assert(final(s)@ =~= old(s)@ + decimal(n as nat));
}

/// `n / d` rounded to the nearest integer, a tie going to the even one.
pub fn round_div_half_even(n: u128, d: u128) -> (q: u128)
    requires
        0 < d <= 0x1_0000_0000,
    ensures
        q == round_half_even(n as nat, d as nat),
{
    let q = n / d;
    let r = n % d;
    if 2 * r > d || (2 * r == d && q % 2 == 1) {
        assert(d >= 2);
        assert(q * d <= n) by {
            vstd::arithmetic::div_mod::lemma_fundamental_div_mod(n as int, d as int);
        }
        assert(q < u128::MAX) by (nonlinear_arith)
            requires
                q * d <= n,
                d >= 2,
                n <= u128::MAX,
        ;
        q + 1
    } else {
        q
    }
}

/// The largest integer, plus one, whose value as `f64` this library computes:
/// 2^80.
pub open spec fn f64_input_limit() -> nat {
    0x1_0000_0000_0000_0000_0000
}

/// The value that `v as f64` takes, as an integer.
pub fn nearest_f64_value(v: u128) -> (f: u128)
    requires
        v < f64_input_limit(),
    ensures
        f == nearest_f64(v as nat),
        f <= 0x2_0000_0000_0000_0000_0000,
{
    let mut w: u128 = v;
    let mut spacing: u128 = 1;
    while w >= 0x20_0000_0000_0000
        invariant
            v < f64_input_limit(),
            spacing >= 1,
            w == v / spacing,
            spacing * f64_spacing(w as nat) == f64_spacing(v as nat),
            spacing <= 0x1000_0000,
        decreases w,
    {
        assert(spacing * w <= v) by {
            vstd::arithmetic::div_mod::lemma_fundamental_div_mod(v as int, spacing as int);
        }
        assert(spacing < 0x800_0000) by (nonlinear_arith)
            requires
                spacing * w <= v,
                v < 0x1_0000_0000_0000_0000_0000,
                w >= 0x20_0000_0000_0000,
        ;
        assert(w / 2 == (v as int) / (spacing * 2)) by {
            vstd::arithmetic::div_mod::lemma_div_denominator(v as int, spacing as int, 2);
        }
        assert(spacing * 2 * f64_spacing((w / 2) as nat) == spacing * f64_spacing(w as nat))
            by (nonlinear_arith)
            requires
                f64_spacing(w as nat) == 2 * f64_spacing((w / 2) as nat),
        ;
        w = w / 2;
        spacing = spacing * 2;
    }
    assert(spacing * f64_spacing(w as nat) == spacing) by (nonlinear_arith)
        requires
            f64_spacing(w as nat) == 1,
    ;
    let q = round_div_half_even(v, spacing);
    assert(q <= 0x20_0000_0000_0000) by (nonlinear_arith)
        requires
            w == v / spacing,
            w < 0x20_0000_0000_0000,
            q <= w + 1,
    ;
    assert(q * spacing <= 0x2_0000_0000_0000_0000_0000) by (nonlinear_arith)
        requires
            q <= 0x20_0000_0000_0000,
            spacing <= 0x1000_0000,
    ;
    q * spacing
}

/// Appends `format!("{:.1}", v as f64 / divisor as f64)` to `s`, for a divisor
/// of 1024, 1024^2 or 1024^3.
pub fn push_one_decimal(s: &mut String, v: u128, divisor: u128)
    requires
        v < f64_input_limit(),
        divisor == 1024 || divisor == 0x10_0000 || divisor == 0x4000_0000,
    ensures
        final(s)@ == old(s)@ + one_decimal(tenths_of(v as nat, divisor as nat)),
{
    let f = nearest_f64_value(v);
    let t = round_div_half_even(f * 10, divisor);
    push_decimal(s, t / 10);
    s.push('.');
    s.push(digit((t % 10) as u8));
    assert(final(s)@ =~= old(s)@ + one_decimal(tenths_of(v as nat, divisor as nat)));
}

/// The characters of `s`, in order.
pub fn chars_of(s: &str) -> (v: Vec<char>)
    ensures
        v@ == s@,
{
    let mut v: Vec<char> = Vec::new();
    for c in it: s.chars()
        invariant
            v@ == it.seq().take(it.index() as int),
    {
        v.push(c);
    }
    v
}

/// The string made of the characters `cs[from..to]`.
pub fn string_of(cs: &Vec<char>, from: usize, to: usize) -> (s: String)
    requires
        from <= to <= cs.len(),
    ensures
        s@ == cs@.subrange(from as int, to as int),
{
    let mut s = String::new();
    let mut i = from;
    while i < to
        invariant
            from <= i <= to <= cs.len(),
            s@ == cs@.subrange(from as int, i as int),
        decreases to - i,
    {
        s.push(cs[i]);
        i = i + 1;
        assert(s@ =~= cs@.subrange(from as int, i as int));
    }
    s
}

/// `needle` occurs in `hay` starting at position `i`.
pub open spec fn occurs_at(hay: Seq<char>, needle: Seq<char>, i: int) -> bool {
    &&& 0 <= i
    &&& i + needle.len() <= hay.len()
    &&& hay.subrange(i, i + needle.len()) == needle
}

/// `needle` occurs somewhere in `hay`, as `str::contains` tells.
pub open spec fn contains(hay: Seq<char>, needle: Seq<char>) -> bool {
    exists|i: int| occurs_at(hay, needle, i)
}

/// Whether `needle` occurs in `hay` starting at position `i`.
pub fn occurs_at_index(hay: &Vec<char>, needle: &Vec<char>, i: usize) -> (b: bool)
    ensures
        b == occurs_at(hay@, needle@, i as int),
{
    if i > hay.len() || needle.len() > hay.len() - i {
        return false;
    }
    let mut j: usize = 0;
    while j < needle.len()
        invariant
            i + needle.len() <= hay.len(),
            j <= needle.len(),
            forall|k: int| 0 <= k < j ==> hay@[i + k] == needle@[k],
        decreases needle.len() - j,
    {
        if hay[i + j] != needle[j] {
            assert(hay@.subrange(i as int, i + needle.len())[j as int] != needle@[j as int]);
            return false;
        }
        j = j + 1;
    }
    assert(hay@.subrange(i as int, i + needle.len()) =~= needle@);
    true
}

/// Whether `needle` occurs anywhere in `hay`.
pub fn contains_chars(hay: &Vec<char>, needle: &Vec<char>) -> (b: bool)
    ensures
        b == contains(hay@, needle@),
{
    if needle.len() > hay.len() {
        return false;
    }
    let last = hay.len() - needle.len();
    let mut i: usize = 0;
    loop
        invariant
            i <= last,
            last == hay.len() - needle.len(),
            forall|k: int| 0 <= k < i ==> !occurs_at(hay@, needle@, k),
        decreases last - i,
    {
        if occurs_at_index(hay, needle, i) {
            return true;
        }
        if i == last {
            return false;
        }
        i = i + 1;
    }
}

/// Whether `a` and `b` hold the same characters.
pub fn same_chars(a: &Vec<char>, b: &Vec<char>) -> (r: bool)
    ensures
        r == (a@ == b@),
{
    if a.len() != b.len() {
        return false;
    }
    let r = occurs_at_index(a, b, 0);
    if r {
        assert(a@ =~= a@.subrange(0, b@.len() as int));
    } else {
        proof {
            if a@ == b@ {
                assert(a@.subrange(0, b@.len() as int) =~= b@);
            }
        }
    }
    r
}

/// An integer below 2^53 is an `f64` exactly, and the tenths written for its
/// quotient by `divisor` are within half a tenth of the exact quotient.
pub proof fn lemma_tenths_within_half_a_tenth(v: nat, divisor: nat)
    requires
        v < 0x20_0000_0000_0000,
        divisor > 0,
    ensures
        nearest_f64(v) == v,
        -(divisor as int) <= 2 * (tenths_of(v, divisor) * divisor - 10 * v) <= divisor,
{
    assert(f64_spacing(v) == 1);
    assert(v / 1 == v && v % 1 == 0) by (nonlinear_arith);
    assert(round_half_even(v, 1) == v);
    let n = v * 10;
    let q = n / divisor;
    let r = n % divisor;
    assert(q * divisor + r == n && 0 <= r < divisor) by {
        vstd::arithmetic::div_mod::lemma_fundamental_div_mod(n as int, divisor as int);
    }
    let t = tenths_of(v, divisor);
    if 2 * r > divisor || (2 * r == divisor && q % 2 == 1) {
        assert(t == q + 1);
        assert(t * divisor == q * divisor + divisor) by (nonlinear_arith)
            requires
                t == q + 1,
        ;
    } else {
        assert(t == q);
    }
}

/// Rounding half to even never turns a larger numerator into a smaller
/// quotient.
pub proof fn lemma_round_half_even_monotone(n1: nat, n2: nat, d: nat)
    requires
        n1 <= n2,
        d > 0,
    ensures
        round_half_even(n1, d) <= round_half_even(n2, d),
        n1 / d <= round_half_even(n1, d) <= n1 / d + 1,
{
    vstd::arithmetic::div_mod::lemma_div_is_ordered(n1 as int, n2 as int, d as int);
    vstd::arithmetic::div_mod::lemma_fundamental_div_mod(n1 as int, d as int);
    vstd::arithmetic::div_mod::lemma_fundamental_div_mod(n2 as int, d as int);
    if n1 / d == n2 / d {
        assert(n1 % d <= n2 % d);
    }
}

proof fn lemma_f64_spacing_bounds(v: nat)
    ensures
        f64_spacing(v) >= 1,
        v < 0x20_0000_0000_0000 * f64_spacing(v),
        f64_spacing(v) > 1 ==> v >= 0x10_0000_0000_0000 * f64_spacing(v),
    decreases v,
{
    if v >= 0x20_0000_0000_0000 {
        let h = v / 2;
        lemma_f64_spacing_bounds(h);
        let s = f64_spacing(h);
        assert(v < 0x20_0000_0000_0000 * (2 * s)) by (nonlinear_arith)
            requires
                h < 0x20_0000_0000_0000 * s,
                h == v / 2,
        ;
        if s > 1 {
            assert(v >= 0x10_0000_0000_0000 * (2 * s)) by (nonlinear_arith)
                requires
                    h >= 0x10_0000_0000_0000 * s,
                    h == v / 2,
            ;
        } else {
            assert(v >= 0x10_0000_0000_0000 * (2 * s)) by (nonlinear_arith)
                requires
                    s == 1,
                    v >= 0x20_0000_0000_0000,
            ;
        }
    }
}

proof fn lemma_f64_spacing_monotone(v1: nat, v2: nat)
    requires
        v1 <= v2,
    ensures
        f64_spacing(v1) <= f64_spacing(v2),
        f64_spacing(v1) < f64_spacing(v2) ==> 2 * f64_spacing(v1) <= f64_spacing(v2),
    decreases v2,
{
    if v2 >= 0x20_0000_0000_0000 {
        lemma_f64_spacing_bounds(v2 / 2);
        if v1 >= 0x20_0000_0000_0000 {
            lemma_f64_spacing_monotone(v1 / 2, v2 / 2);
        }
    }
}

/// Converting to `f64` never turns a larger integer into a smaller value.
pub proof fn lemma_nearest_f64_monotone(v1: nat, v2: nat)
    requires
        v1 <= v2,
    ensures
        nearest_f64(v1) <= nearest_f64(v2),
{
    let s1 = f64_spacing(v1);
    let s2 = f64_spacing(v2);
    lemma_f64_spacing_bounds(v1);
    lemma_f64_spacing_bounds(v2);
    lemma_f64_spacing_monotone(v1, v2);
    let q1 = round_half_even(v1, s1);
    let q2 = round_half_even(v2, s2);
    lemma_round_half_even_monotone(v1, v1, s1);
    lemma_round_half_even_monotone(v2, v2, s2);
    if s1 == s2 {
        lemma_round_half_even_monotone(v1, v2, s1);
        assert(q1 * s1 <= q2 * s1) by (nonlinear_arith)
            requires
                q1 <= q2,
        ;
    } else {
        assert(v1 / s1 < 0x20_0000_0000_0000) by (nonlinear_arith)
            requires
                v1 < 0x20_0000_0000_0000 * s1,
                s1 >= 1,
        ;
        assert(v2 / s2 >= 0x10_0000_0000_0000) by (nonlinear_arith)
            requires
                v2 >= 0x10_0000_0000_0000 * s2,
                s2 >= 1,
        ;
        assert(q1 * s1 <= q2 * s2) by (nonlinear_arith)
            requires
                q1 <= 0x20_0000_0000_0000,
                q2 >= 0x10_0000_0000_0000,
                2 * s1 <= s2,
        ;
    }
}

/// Writing a larger integer over the same divisor never shows fewer tenths.
pub proof fn lemma_tenths_of_monotone(v1: nat, v2: nat, divisor: nat)
    requires
        v1 <= v2,
        divisor > 0,
    ensures
        tenths_of(v1, divisor) <= tenths_of(v2, divisor),
{
    lemma_nearest_f64_monotone(v1, v2);
    lemma_round_half_even_monotone(nearest_f64(v1) * 10, nearest_f64(v2) * 10, divisor);
}

/// `needle` is contained in `hay` exactly when it stands at some position of
/// it, the start, the end or anywhere in between.
pub proof fn lemma_contains_means_somewhere(hay: Seq<char>, needle: Seq<char>, i: int)
    ensures
        0 <= i && i + needle.len() <= hay.len() && hay.subrange(i, i + needle.len()) == needle
            ==> contains(hay, needle),
        contains(hay, needle) <==> exists|k: int|
            0 <= k && k + needle.len() <= hay.len() && #[trigger] hay.subrange(k, k + needle.len())
                == needle,
{
    if 0 <= i && i + needle.len() <= hay.len() && hay.subrange(i, i + needle.len()) == needle {
        assert(occurs_at(hay, needle, i));
    }
    if contains(hay, needle) {
        let k = choose|k: int| occurs_at(hay, needle, k);
        assert(hay.subrange(k, k + needle.len()) == needle);
    }
    if exists|k: int|
        0 <= k && k + needle.len() <= hay.len() && #[trigger] hay.subrange(k, k + needle.len())
            == needle {
        let k = choose|k: int|
            0 <= k && k + needle.len() <= hay.len() && #[trigger] hay.subrange(k, k + needle.len())
                == needle;
        assert(occurs_at(hay, needle, k));
    }
}

/// A count of tenths is written as its whole part, a point, and the digit of
/// its tenths.
pub proof fn lemma_one_decimal_reads_back(t: nat)
    ensures
        one_decimal(t).len() >= 3,
        one_decimal(t)[one_decimal(t).len() - 2] == '.',
        one_decimal(t).subrange(0, one_decimal(t).len() - 2) == decimal(t / 10),
        one_decimal(t).last() as u32 == 48 + t % 10,
{
    let d = decimal(t / 10);
    crate::sysfs::lemma_decimal_reads_back(t / 10);
    let o = one_decimal(t);
    assert(o.subrange(0, o.len() - 2) =~= d);
}

} // verus!
