//! Fixed-width text: rendering and parsing of fixed-point decimal numbers.
//!
//! Numbers are carried as `i64` values scaled by a power of ten (the scale is
//! the number of decimal places a field prints). Rendering produces the exact
//! column-aligned text the external simulator expects; parsing recovers the
//! scaled value from one whitespace-separated token.
use vstd::prelude::*;

verus! {

/// `10^e`.
pub open spec fn pow10(e: nat) -> nat
    decreases e,
{
    if e == 0 {
        1
    } else {
        10 * pow10((e - 1) as nat)
    }
}

/// The character for one decimal digit `0 <= d <= 9`.
pub open spec fn digit_char(d: int) -> char {
    ((48 + d) as u8) as char
}

/// The decimal digits of `n`, most significant first, with no sign and no
/// leading zeros (a single `'0'` for zero).
pub open spec fn spec_digits(n: nat) -> Seq<char>
    decreases n,
{
    if n < 10 {
        seq![digit_char(n as int)]
    } else {
        spec_digits(n / 10).push(digit_char((n % 10) as int))
    }
}

/// `f` rendered as exactly `d` digits, zero-padded on the left.
pub open spec fn spec_frac_digits(f: nat, d: nat) -> Seq<char>
    decreases d,
{
    if d == 0 {
        Seq::empty()
    } else {
        spec_frac_digits(f / 10, (d - 1) as nat).push(digit_char((f % 10) as int))
    }
}

/// A non-negative value `m` (scaled by `10^d`) rendered with `d` decimal
/// places: the integer part, then a point and exactly `d` fraction digits
/// (no point at all when `d == 0`).
pub open spec fn spec_unsigned_fixed(m: nat, d: nat) -> Seq<char> {
    if d == 0 {
        spec_digits(m)
    } else {
        spec_digits(m / pow10(d)) + seq!['.'] + spec_frac_digits(m % pow10(d), d)
    }
}

/// A scaled value `v` rendered with `d` decimal places, with a leading minus
/// sign when negative.
pub open spec fn spec_fixed(v: int, d: nat) -> Seq<char> {
    if v < 0 {
        seq!['-'] + spec_unsigned_fixed((-v) as nat, d)
    } else {
        spec_unsigned_fixed(v as nat, d)
    }
}

/// `n` spaces.
pub open spec fn spaces(n: nat) -> Seq<char> {
    Seq::new(n, |i: int| ' ')
}

/// `s` right-justified to a minimum width `w` with spaces; text wider than
/// `w` is kept whole.
pub open spec fn spec_padded(s: Seq<char>, w: nat) -> Seq<char> {
    if s.len() >= w {
        s
    } else {
        spaces((w - s.len()) as nat) + s
    }
}

/// `10^e` for the scales the codec uses.
pub fn pow10_u64(e: usize) -> (r: u64)
    requires
        e <= 4,
    ensures
        r == pow10(e as nat),
        1 <= r <= 10000,
{
    proof {
        reveal_with_fuel(pow10, 5);
    }
    if e == 0 {
        1
    } else if e == 1 {
        10
    } else if e == 2 {
        100
    } else if e == 3 {
        1000
    } else {
        10000
    }
}

/// The decimal digits of `n`, most significant first.
pub fn fmt_nat(n: u64) -> (r: Vec<char>)
    ensures
        r@ == spec_digits(n as nat),
{
    let mut acc: Vec<char> = Vec::new();
    if n == 0 {
        acc.push('0');
        assert(acc@ =~= spec_digits(0));
        return acc;
    }
    let mut m: u64 = n;
    while m > 0
        invariant
            m > 0 ==> spec_digits(n as nat) == spec_digits(m as nat) + acc@,
            m == 0 ==> acc@ == spec_digits(n as nat),
        decreases m,
    {
        let ghost m0 = m as nat;
        let ghost acc0 = acc@;
        let d: u64 = m % 10;
        let c: char = (48u8 + d as u8) as char;
        acc.insert(0, c);
        m = m / 10;
        proof {
            assert(c == digit_char((m0 % 10) as int));
            assert(acc@ =~= seq![c] + acc0);
            if m > 0 {
                assert(spec_digits(m0) == spec_digits(m0 / 10).push(digit_char((m0 % 10) as int)));
                assert(spec_digits(m0 / 10).push(c) + acc0 =~= spec_digits(m0 / 10) + (seq![c]
                    + acc0));
            } else {
                assert(m0 < 10);
                assert(spec_digits(m0) == seq![digit_char(m0 as int)]);
                assert(seq![c] + acc0 =~= spec_digits(m0) + acc0);
            }
        }
    }
    acc
}

/// The magnitude of `v` as an unsigned value.
pub open spec fn abs_val(v: int) -> nat {
    if v < 0 {
        (-v) as nat
    } else {
        v as nat
    }
}

fn magnitude_u64(v: i64) -> (r: u64)
    ensures
        r == abs_val(v as int),
{
    if v >= 0 {
        v as u64
    } else {
        let w: i128 = -(v as i128);
        w as u64
    }
}

/// A scaled value rendered with `d` decimal places, unpadded.
pub fn fmt_fixed(v: i64, d: usize) -> (r: Vec<char>)
    requires
        d <= 4,
    ensures
        r@ == spec_fixed(v as int, d as nat),
{
    let mag: u64 = magnitude_u64(v);
    let mut acc: Vec<char>;
    if d == 0 {
        acc = fmt_nat(mag);
    } else {
        let p: u64 = pow10_u64(d);
        let ip: u64 = mag / p;
        let fp: u64 = mag % p;
        acc = fmt_nat(ip);
        acc.push('.');
        let mut frac: Vec<char> = Vec::new();
        let mut f: u64 = fp;
        let mut k: usize = d;
        while k > 0
            invariant
                spec_frac_digits(fp as nat, d as nat) == spec_frac_digits(f as nat, k as nat)
                    + frac@,
            decreases k,
        {
            let ghost f0 = f as nat;
            let ghost k0 = k as nat;
            let ghost frac0 = frac@;
            let dd: u64 = f % 10;
            let c: char = (48u8 + dd as u8) as char;
            frac.insert(0, c);
            f = f / 10;
            k = k - 1;
            proof {
                assert(c == digit_char((f0 % 10) as int));
                assert(frac@ =~= seq![c] + frac0);
                assert(spec_frac_digits(f0, k0) == spec_frac_digits(f0 / 10, (k0 - 1) as nat).push(
                    c,
                ));
                assert(spec_frac_digits(f0 / 10, (k0 - 1) as nat).push(c) + frac0
                    =~= spec_frac_digits(f0 / 10, (k0 - 1) as nat) + (seq![c] + frac0));
            }
        }
        assert(spec_frac_digits(fp as nat, d as nat) =~= Seq::empty() + frac@);
        acc.append(&mut frac);
        assert(acc@ =~= spec_digits(ip as nat) + seq!['.'] + spec_frac_digits(
            fp as nat,
            d as nat,
        ));
    }
    assert(acc@ == spec_unsigned_fixed(abs_val(v as int), d as nat));
    if v < 0 {
        acc.insert(0, '-');
        assert(acc@ =~= seq!['-'] + spec_unsigned_fixed(abs_val(v as int), d as nat));
    }
    acc
}

/// `s` right-justified to a minimum width `w` with spaces.
pub fn pad_left(s: Vec<char>, w: usize) -> (r: Vec<char>)
    ensures
        r@ == spec_padded(s@, w as nat),
{
    let ghost orig = s@;
    let mut acc = s;
    if acc.len() >= w {
        return acc;
    }
    let mut j: usize = 0;
    let k: usize = w - acc.len();
    while j < k
        invariant
            acc@ == spaces(j as nat) + orig,
            j <= k,
            k == w - orig.len(),
            orig.len() < w,
        decreases k - j,
    {
        acc.insert(0, ' ');
        j = j + 1;
        assert(acc@ =~= spaces(j as nat) + orig);
    }
    assert(acc@ == spec_padded(orig, w as nat));
    acc
}

/// A whitespace character: blank, tab, carriage return or line feed.
pub open spec fn is_ws(c: char) -> bool {
    c == ' ' || c == '\t' || c == '\r' || c == '\n'
}

/// A decimal digit character.
pub open spec fn is_digit(c: char) -> bool {
    48 <= c as u32 && c as u32 <= 57
}

/// The value of one digit character.
pub open spec fn digit_val(c: char) -> int {
    c as u32 - 48
}

/// Every character of `s` is a decimal digit.
pub open spec fn all_digits(s: Seq<char>) -> bool {
    forall|i: int| 0 <= i < s.len() ==> is_digit(#[trigger] s[i])
}

/// The number an all-digit sequence denotes (most significant digit first).
pub open spec fn digits_val(s: Seq<char>) -> int
    decreases s.len(),
{
    if s.len() == 0 {
        0
    } else {
        digits_val(s.drop_last()) * 10 + digit_val(s.last())
    }
}

/// The first position at or after `from` where `s` holds `c`, or `s.len()`
/// when there is none.
pub open spec fn first_at(s: Seq<char>, c: char, from: int) -> int
    decreases s.len() - from,
{
    if !(0 <= from < s.len()) {
        s.len() as int
    } else if s[from] == c {
        from
    } else {
        first_at(s, c, from + 1)
    }
}

proof fn lemma_first_at(s: Seq<char>, c: char, from: int, p: int)
    requires
        0 <= from <= p <= s.len(),
        forall|m: int| from <= m < p ==> s[m] != c,
        p == s.len() || s[p] == c,
    ensures
        first_at(s, c, from) == p,
    decreases p - from,
{
    if from < p {
        lemma_first_at(s, c, from + 1, p);
    }
}

proof fn lemma_digits_val_nonneg(s: Seq<char>)
    requires
        all_digits(s),
    ensures
        digits_val(s) >= 0,
    decreases s.len(),
{
    if s.len() > 0 {
        assert(all_digits(s.drop_last()));
        lemma_digits_val_nonneg(s.drop_last());
    }
}

proof fn lemma_digits_val_prefix_le(s: Seq<char>, m: int)
    requires
        all_digits(s),
        0 <= m <= s.len(),
    ensures
        digits_val(s.subrange(0, m)) <= digits_val(s),
    decreases s.len(),
{
    if m == s.len() {
        assert(s.subrange(0, m) =~= s);
    } else {
        let t = s.drop_last();
        assert(all_digits(t));
        assert(s.subrange(0, m) =~= t.subrange(0, m));
        lemma_digits_val_prefix_le(t, m);
        lemma_digits_val_nonneg(t);
    }
}

/// The scaled value a token denotes at scale `d`, ignoring any sign: either
/// all digits, or digits, a point, and between one and `d` fraction digits.
pub open spec fn unsigned_token_val(s: Seq<char>, d: nat) -> Option<int> {
    let p = first_at(s, '.', 0);
    if p == s.len() {
        if s.len() >= 1 && all_digits(s) {
            Some(digits_val(s) * pow10(d))
        } else {
            None
        }
    } else {
        let ip = s.subrange(0, p);
        let fp = s.subrange(p + 1, s.len() as int);
        if ip.len() >= 1 && all_digits(ip) && 1 <= fp.len() <= d && all_digits(fp) {
            Some(digits_val(ip) * pow10(d) + digits_val(fp) * pow10((d - fp.len()) as nat))
        } else {
            None
        }
    }
}

/// The scaled value a token denotes at scale `d`, `None` when the token is
/// not a decimal number with at most `d` fraction digits.
pub open spec fn token_val(s: Seq<char>, d: nat) -> Option<int> {
    if s.len() >= 1 && (s[0] == '-' || s[0] == '+') {
        match unsigned_token_val(s.drop_first(), d) {
            Some(v) => Some(
                if s[0] == '-' {
                    -v
                } else {
                    v
                },
            ),
            None => None,
        }
    } else {
        unsigned_token_val(s, d)
    }
}

/// The digits of `s` between `from` and `to` read as a number; `None` when
/// the range is empty, holds a non-digit, or denotes more than `i64::MAX`.
fn parse_digits(s: &Vec<char>, from: usize, to: usize) -> (r: Option<i64>)
    requires
        from <= to <= s@.len(),
    ensures
        ({
            let t = s@.subrange(from as int, to as int);
            &&& r is Some <==> (from < to && all_digits(t) && digits_val(t) <= i64::MAX)
            &&& r is Some ==> r->0 == digits_val(t)
        }),
{
    let ghost t = s@.subrange(from as int, to as int);
    if from == to {
        return None;
    }
    let mut acc: u64 = 0;
    let mut i: usize = from;
    while i < to
        invariant
            from <= i <= to <= s@.len(),
            t == s@.subrange(from as int, to as int),
            all_digits(s@.subrange(from as int, i as int)),
            acc == digits_val(s@.subrange(from as int, i as int)),
            acc <= i64::MAX,
        decreases to - i,
    {
        let ghost pre = s@.subrange(from as int, i as int);
        let c = s[i];
        let ci = c as u32;
        if ci < 48 || ci > 57 {
            proof {
                assert(t[i - from] == s@[i as int]);
                assert(!all_digits(t));
            }
            return None;
        }
        let dv: u64 = (ci - 48) as u64;
        let nv: u128 = acc as u128 * 10 + dv as u128;
        let ghost pre1 = s@.subrange(from as int, i + 1);
        proof {
            assert(pre1.drop_last() =~= pre);
            assert(pre1.last() == s@[i as int]);
            assert(digits_val(pre1) == digits_val(pre) * 10 + digit_val(s@[i as int]));
        }
        if nv > i64::MAX as u128 {
            proof {
                if all_digits(t) && digits_val(t) <= i64::MAX {
                    assert(pre1 =~= t.subrange(0, i + 1 - from));
                    lemma_digits_val_prefix_le(t, i + 1 - from);
                    assert(false);
                }
            }
            return None;
        }
        acc = nv as u64;
        i = i + 1;
        proof {
            assert(all_digits(pre1));
        }
    }
    proof {
        assert(s@.subrange(from as int, i as int) =~= t);
    }
    Some(acc as i64)
}

/// The scaled value of the token `s@.subrange(from, s.len())` at scale `d`,
/// ignoring any sign; `None` outside the grammar of [`unsigned_token_val`]
/// or beyond `i64::MAX`.
fn parse_unsigned_fixed(s: &Vec<char>, from: usize, d: usize) -> (r: Option<i64>)
    requires
        from <= s@.len(),
        d <= 4,
    ensures
        ({
            let u = s@.subrange(from as int, s@.len() as int);
            let tv = unsigned_token_val(u, d as nat);
            &&& tv is None ==> r is None
            &&& (tv is Some && tv->0 <= i64::MAX) ==> (r is Some && r->0 == tv->0)
            &&& (tv is Some && tv->0 > i64::MAX) ==> r is None
            &&& r is Some ==> tv == Some(r->0 as int)
        }),
{
    let ghost u = s@.subrange(from as int, s@.len() as int);
    let n = s.len();
    let mut j: usize = from;
    while j < n && s[j] != '.'
        invariant
            from <= j <= n == s@.len(),
            forall|m: int| from <= m < j ==> s@[m] != '.',
        decreases n - j,
    {
        j = j + 1;
    }
    let ghost p = j - from;
    proof {
        assert(forall|m: int| 0 <= m < p ==> u[m] == s@[from + m] && u[m] != '.');
        if j < n {
            assert(u[p] == s@[j as int]);
        }
        lemma_first_at(u, '.', 0, p);
    }
    if j == n {
        // no point: the whole token is the integer part
        let ipv = match parse_digits(s, from, n) {
            Some(v) => v,
            None => {
                proof {
                    assert(u =~= s@.subrange(from as int, n as int));
                    if unsigned_token_val(u, d as nat) is Some {
                        lemma_digits_val_nonneg(u);
                        assert(pow10(d as nat) >= 1) by {
                            reveal_with_fuel(pow10, 5);
                        }
                        assert(digits_val(u) * pow10(d as nat) >= digits_val(u) * 1) by (
                        nonlinear_arith)
                            requires
                                digits_val(u) >= 0,
                                pow10(d as nat) >= 1,
                        ;
                        assert(digits_val(u) > i64::MAX);
                    }
                }
                return None;
            },
        };
        let p10: u64 = pow10_u64(d);
        proof {
            assert(u =~= s@.subrange(from as int, n as int));
            lemma_digits_val_nonneg(u);
            assert(0 <= ipv as int * p10 as int <= i64::MAX as int * 10000) by (nonlinear_arith)
                requires
                    0 <= ipv as int <= i64::MAX as int,
                    1 <= p10 as int <= 10000,
            ;
        }
        let v128: u128 = ipv as u128 * p10 as u128;
        proof {
            assert(v128 == digits_val(u) * pow10(d as nat));
        }
        if v128 > i64::MAX as u128 {
            return None;
        }
        Some(v128 as i64)
    } else {
        // s[j] is the point; fraction digits follow
        let fl = n - (j + 1);
        if fl == 0 || fl > d {
            proof {
                let fp = u.subrange(p + 1, u.len() as int);
                assert(fp.len() == fl);
            }
            return None;
        }
        let ghost ip = u.subrange(0, p);
        let ghost fp = u.subrange(p + 1, u.len() as int);
        proof {
            assert(ip =~= s@.subrange(from as int, j as int));
            assert(fp =~= s@.subrange(j + 1, n as int));
        }
        let ipv = match parse_digits(s, from, j) {
            Some(v) => v,
            None => {
                proof {
                    if unsigned_token_val(u, d as nat) is Some {
                        lemma_digits_val_nonneg(ip);
                        lemma_digits_val_nonneg(fp);
                        assert(pow10(d as nat) >= 1 && pow10((d - fl) as nat) >= 0) by {
                            reveal_with_fuel(pow10, 5);
                        }
                        assert(digits_val(ip) * pow10(d as nat) >= digits_val(ip) * 1) by (
                        nonlinear_arith)
                            requires
                                digits_val(ip) >= 0,
                                pow10(d as nat) >= 1,
                        ;
                        assert(digits_val(fp) * pow10((d - fl) as nat) >= 0) by (nonlinear_arith)
                            requires
                                digits_val(fp) >= 0,
                                pow10((d - fl) as nat) >= 0,
                        ;
                        assert(digits_val(ip) > i64::MAX);
                    }
                }
                return None;
            },
        };
        let fpv = match parse_digits(s, j + 1, n) {
            Some(v) => v,
            None => {
                proof {
                    if unsigned_token_val(u, d as nat) is Some {
                        // a fraction of at most four digits always fits
                        lemma_digits_val_bound(fp);
                        assert(pow10(fp.len()) <= pow10(4)) by {
                            lemma_pow10_mono(fp.len(), 4);
                        }
                        assert(pow10(4) == 10000) by {
                            reveal_with_fuel(pow10, 5);
                        }
                    }
                }
                return None;
            },
        };
        let p10: u64 = pow10_u64(d);
        let mult: u64 = pow10_u64(d - fl);
        proof {
            lemma_digits_val_nonneg(ip);
            lemma_digits_val_nonneg(fp);
            assert(0 <= ipv as int * p10 as int <= i64::MAX as int * 10000) by (nonlinear_arith)
                requires
                    0 <= ipv as int <= i64::MAX as int,
                    1 <= p10 as int <= 10000,
            ;
            assert(0 <= fpv as int * mult as int <= i64::MAX as int * 10000) by (nonlinear_arith)
                requires
                    0 <= fpv as int <= i64::MAX as int,
                    1 <= mult as int <= 10000,
            ;
        }
        let v128: u128 = ipv as u128 * p10 as u128 + fpv as u128 * mult as u128;
        proof {
            assert(v128 == digits_val(ip) * pow10(d as nat) + digits_val(fp) * pow10(
                (d - fl) as nat,
            ));
        }
        if v128 > i64::MAX as u128 {
            return None;
        }
        Some(v128 as i64)
    }
}

proof fn lemma_pow10_mono(a: nat, b: nat)
    requires
        a <= b,
    ensures
        pow10(a) <= pow10(b),
        pow10(a) >= 1,
    decreases b,
{
    if a == b {
        if a == 0 {
        } else {
            lemma_pow10_mono((a - 1) as nat, (b - 1) as nat);
        }
    } else {
        lemma_pow10_mono(a, (b - 1) as nat);
    }
}

/// An all-digit sequence of length `l` denotes less than `10^l`.
proof fn lemma_digits_val_bound(s: Seq<char>)
    requires
        all_digits(s),
    ensures
        0 <= digits_val(s) < pow10(s.len()),
    decreases s.len(),
{
    if s.len() == 0 {
    } else {
        let t = s.drop_last();
        assert(all_digits(t));
        lemma_digits_val_bound(t);
        assert(is_digit(s.last()));
        assert(digits_val(s) == digits_val(t) * 10 + digit_val(s.last()));
        assert(digits_val(t) * 10 + digit_val(s.last()) < pow10(t.len()) * 10) by (
        nonlinear_arith)
            requires
                digits_val(t) < pow10(t.len()),
                digit_val(s.last()) < 10,
                digits_val(t) >= 0,
        ;
        assert(pow10(s.len()) == 10 * pow10(t.len()));
    }
}

/// The scaled value of one token at scale `d`; `None` when the token is not
/// a plain decimal number of at most `d` decimal places, or its scaled
/// magnitude is more than `i64::MAX`.
pub fn parse_fixed(s: &Vec<char>, d: usize) -> (r: Option<i64>)
    requires
        d <= 4,
    ensures
        ({
            let tv = token_val(s@, d as nat);
            &&& tv is None ==> r is None
            &&& (tv is Some && -(i64::MAX as int) <= tv->0 <= i64::MAX as int) ==> (r is Some
                && r->0 == tv->0)
            &&& (tv is Some && !(-(i64::MAX as int) <= tv->0 <= i64::MAX as int)) ==> r is None
            &&& r is Some ==> tv == Some(r->0 as int)
        }),
{
    if s.len() == 0 {
        return None;
    }
    let c0 = s[0];
    if c0 == '-' || c0 == '+' {
        proof {
            assert(s@.drop_first() =~= s@.subrange(1, s@.len() as int));
        }
        match parse_unsigned_fixed(s, 1, d) {
            Some(v) => {
                proof {
                    lemma_unsigned_token_val_nonneg(s@.subrange(1, s@.len() as int), d as nat);
                }
                if c0 == '-' {
                    Some(-v)
                } else {
                    Some(v)
                }
            },
            None => None,
        }
    } else {
        proof {
            assert(s@.subrange(0, s@.len() as int) =~= s@);
            if unsigned_token_val(s@, d as nat) is Some {
                lemma_unsigned_token_val_nonneg(s@, d as nat);
            }
        }
        parse_unsigned_fixed(s, 0, d)
    }
}

/// The views of a list of character vectors.
pub open spec fn views_of(v: Seq<Vec<char>>) -> Seq<Seq<char>> {
    v.map_values(|x: Vec<char>| x@)
}

/// A line with a trailing carriage return loses it.
pub open spec fn strip_cr(s: Seq<char>) -> Seq<char> {
    if s.len() > 0 && s.last() == '\r' {
        s.drop_last()
    } else {
        s
    }
}

proof fn lemma_first_at_bounds(s: Seq<char>, c: char, from: int)
    requires
        0 <= from <= s.len(),
    ensures
        from <= first_at(s, c, from) <= s.len(),
    decreases s.len() - from,
{
    if from < s.len() && s[from] != c {
        lemma_first_at_bounds(s, c, from + 1);
    }
}

/// The lines of `s` from position `from` on: pieces separated by line feeds,
/// each without its line feed and without a trailing carriage return, and
/// with no entry for a trailing line feed.
pub open spec fn spec_lines_from(s: Seq<char>, from: int) -> Seq<Seq<char>>
    decreases s.len() - from,
    via spec_lines_from_dec
{
    if !(0 <= from < s.len()) {
        Seq::empty()
    } else {
        let j = first_at(s, '\n', from);
        if j < s.len() {
            seq![strip_cr(s.subrange(from, j))] + spec_lines_from(s, j + 1)
        } else {
            seq![strip_cr(s.subrange(from, j))]
        }
    }
}

#[via_fn]
proof fn spec_lines_from_dec(s: Seq<char>, from: int) {
    if 0 <= from < s.len() {
        lemma_first_at_bounds(s, '\n', from);
    }
}

/// Split text into its lines.
pub fn split_lines(content: &Vec<char>) -> (r: Vec<Vec<char>>)
    ensures
        views_of(r@) == spec_lines_from(content@, 0),
{
    let n = content.len();
    let mut out: Vec<Vec<char>> = Vec::new();
    let mut from: usize = 0;
    while from < n
        invariant
            n == content@.len(),
            from <= n,
            views_of(out@) + spec_lines_from(content@, from as int) == spec_lines_from(
                content@,
                0,
            ),
        decreases n - from,
    {
        let ghost s = content@;
        let ghost from0 = from as int;
        let mut j: usize = from;
        while j < n && content[j] != '\n'
            invariant
                from <= j <= n == content@.len(),
                forall|m: int| from <= m < j ==> content@[m] != '\n',
            decreases n - j,
        {
            j = j + 1;
        }
        proof {
            lemma_first_at(s, '\n', from0, j as int);
        }
        let mut line: Vec<char> = Vec::new();
        let mut k: usize = from;
        while k < j
            invariant
                from <= k <= j <= content@.len(),
                line@ == content@.subrange(from as int, k as int),
            decreases j - k,
        {
            line.push(content[k]);
            assert(line@ =~= content@.subrange(from as int, k + 1));
            k = k + 1;
        }
        if line.len() > 0 && line[line.len() - 1] == '\r' {
            line.pop();
        }
        proof {
            assert(line@ == strip_cr(s.subrange(from0, j as int)));
        }
        let ghost out0 = out@;
        out.push(line);
        proof {
            assert(views_of(out@) =~= views_of(out0).push(line@));
        }
        if j == n {
            proof {
                assert(spec_lines_from(s, from0) == seq![strip_cr(s.subrange(from0, j as int))]);
                assert(views_of(out@) =~= views_of(out0) + spec_lines_from(s, from0));
            }
            from = n;
            proof {
                assert(views_of(out@) + spec_lines_from(s, from as int) =~= views_of(out@));
            }
        } else {
            from = j + 1;
            proof {
                assert(spec_lines_from(s, from0) == seq![strip_cr(s.subrange(from0, j as int))]
                    + spec_lines_from(s, j + 1));
                assert(views_of(out@) + spec_lines_from(s, j + 1) =~= (views_of(out0)
                    + spec_lines_from(s, from0)));
            }
        }
    }
    assert(views_of(out@) + spec_lines_from(content@, from as int) =~= views_of(out@));
    out
}

/// The first position at or after `from` holding whitespace, or `s.len()`.
pub open spec fn first_ws(s: Seq<char>, from: int) -> int
    decreases s.len() - from,
{
    if !(0 <= from < s.len()) {
        s.len() as int
    } else if is_ws(s[from]) {
        from
    } else {
        first_ws(s, from + 1)
    }
}

proof fn lemma_first_ws(s: Seq<char>, from: int, p: int)
    requires
        0 <= from <= p <= s.len(),
        forall|m: int| from <= m < p ==> !is_ws(s[m]),
        p == s.len() || is_ws(s[p]),
    ensures
        first_ws(s, from) == p,
    decreases p - from,
{
    if from < p {
        lemma_first_ws(s, from + 1, p);
    }
}

proof fn lemma_first_ws_bounds(s: Seq<char>, from: int)
    requires
        0 <= from <= s.len(),
    ensures
        from <= first_ws(s, from) <= s.len(),
    decreases s.len() - from,
{
    if from < s.len() && !is_ws(s[from]) {
        lemma_first_ws_bounds(s, from + 1);
    }
}

/// The whitespace-separated tokens of `s` from position `from` on.
pub open spec fn spec_tokens_from(s: Seq<char>, from: int) -> Seq<Seq<char>>
    decreases s.len() - from,
    via spec_tokens_from_dec
{
    if !(0 <= from < s.len()) {
        Seq::empty()
    } else if is_ws(s[from]) {
        spec_tokens_from(s, from + 1)
    } else {
        let j = first_ws(s, from);
        seq![s.subrange(from, j)] + spec_tokens_from(s, j)
    }
}

#[via_fn]
proof fn spec_tokens_from_dec(s: Seq<char>, from: int) {
    if 0 <= from < s.len() && !is_ws(s[from]) {
        assert(first_ws(s, from) == first_ws(s, from + 1));
        lemma_first_ws_bounds(s, from + 1);
    }
}

/// Split a line into its whitespace-separated tokens.
pub fn tokenize(line: &Vec<char>) -> (r: Vec<Vec<char>>)
    ensures
        views_of(r@) == spec_tokens_from(line@, 0),
{
    let n = line.len();
    let mut out: Vec<Vec<char>> = Vec::new();
    let mut from: usize = 0;
    while from < n
        invariant
            n == line@.len(),
            from <= n,
            views_of(out@) + spec_tokens_from(line@, from as int) == spec_tokens_from(line@, 0),
        decreases n - from,
    {
        let ghost s = line@;
        let ghost from0 = from as int;
        let c = line[from];
        if c == ' ' || c == '\t' || c == '\r' || c == '\n' {
            from = from + 1;
            continue ;
        }
        let mut j: usize = from;
        while j < n && !(line[j] == ' ' || line[j] == '\t' || line[j] == '\r' || line[j] == '\n')
            invariant
                from <= j <= n == line@.len(),
                forall|m: int| from <= m < j ==> !is_ws(#[trigger] line@[m]),
            decreases n - j,
        {
            j = j + 1;
        }
        proof {
            lemma_first_ws(s, from0, j as int);
        }
        let mut tok: Vec<char> = Vec::new();
        let mut k: usize = from;
        while k < j
            invariant
                from <= k <= j <= line@.len(),
                tok@ == line@.subrange(from as int, k as int),
            decreases j - k,
        {
            tok.push(line[k]);
            assert(tok@ =~= line@.subrange(from as int, k + 1));
            k = k + 1;
        }
        let ghost out0 = out@;
        out.push(tok);
        from = j;
        proof {
            assert(views_of(out@) =~= views_of(out0).push(tok@));
            assert(spec_tokens_from(s, from0) == seq![s.subrange(from0, j as int)]
                + spec_tokens_from(s, j as int));
            assert(views_of(out@) + spec_tokens_from(s, j as int) =~= (views_of(out0)
                + spec_tokens_from(s, from0)));
        }
    }
    assert(views_of(out@) + spec_tokens_from(line@, from as int) =~= views_of(out@));
    out
}

/// Relies on std's `String: FromIterator<char>`: collecting characters
/// yields the string of exactly those characters, in order.
#[verifier::external_body]
pub fn chars_to_string(v: &Vec<char>) -> (r: String)
    ensures
        r@ == v@,
{
    v.iter().copied().collect()
}

/// Relies on `str::chars`: the iterator yields the characters of the string
/// in order.
#[verifier::external_body]
pub fn str_chars(s: &str) -> (r: Vec<char>)
    ensures
        r@ == s@,
{
    s.chars().collect()
}

proof fn lemma_unsigned_token_val_nonneg(s: Seq<char>, d: nat)
    requires
        unsigned_token_val(s, d) is Some,
    ensures
        unsigned_token_val(s, d)->0 >= 0,
{
    let p = first_at(s, '.', 0);
    if p == s.len() {
        lemma_digits_val_nonneg(s);
        lemma_pow10_mono(0, d);
        assert(digits_val(s) * pow10(d) >= 0) by (nonlinear_arith)
            requires
                digits_val(s) >= 0,
                pow10(d) >= 0,
        ;
    } else {
        let ip = s.subrange(0, p);
        let fp = s.subrange(p + 1, s.len() as int);
        lemma_digits_val_nonneg(ip);
        lemma_digits_val_nonneg(fp);
        lemma_pow10_mono(0, d);
        lemma_pow10_mono(0, (d - fp.len()) as nat);
        assert(digits_val(ip) * pow10(d) >= 0 && digits_val(fp) * pow10((d - fp.len()) as nat)
            >= 0) by (nonlinear_arith)
            requires
                digits_val(ip) >= 0,
                digits_val(fp) >= 0,
                pow10(d) >= 0,
                pow10((d - fp.len()) as nat) >= 0,
        ;
    }
}

proof fn lemma_spec_digits_all(n: nat)
    ensures
        all_digits(spec_digits(n)),
        digits_val(spec_digits(n)) == n,
        spec_digits(n).len() >= 1,
    decreases n,
{
    if n < 10 {
        let s = spec_digits(n);
        assert(s == seq![digit_char(n as int)]);
        assert(digit_char(n as int) as u32 == 48 + n);
        assert(s.drop_last() =~= Seq::<char>::empty());
        assert(digits_val(Seq::<char>::empty()) == 0);
        assert(digits_val(s) == digit_val(s.last()));
    } else {
        lemma_spec_digits_all(n / 10);
        let t = spec_digits(n / 10);
        let s = spec_digits(n);
        assert(s == t.push(digit_char((n % 10) as int)));
        assert(s.drop_last() =~= t);
        assert(digit_char((n % 10) as int) as u32 == 48 + n % 10);
        assert(digits_val(s) == digits_val(t) * 10 + (n % 10));
    }
}

proof fn lemma_frac_digits_all(f: nat, d: nat)
    requires
        f < pow10(d),
    ensures
        all_digits(spec_frac_digits(f, d)),
        digits_val(spec_frac_digits(f, d)) == f,
        spec_frac_digits(f, d).len() == d,
    decreases d,
{
    if d == 0 {
        assert(f == 0);
    } else {
        assert(pow10(d) == 10 * pow10((d - 1) as nat));
        assert(f / 10 < pow10((d - 1) as nat));
        lemma_frac_digits_all(f / 10, (d - 1) as nat);
        let t = spec_frac_digits(f / 10, (d - 1) as nat);
        let s = spec_frac_digits(f, d);
        assert(s == t.push(digit_char((f % 10) as int)));
        assert(s.drop_last() =~= t);
        assert(digit_char((f % 10) as int) as u32 == 48 + f % 10);
        assert(digits_val(s) == digits_val(t) * 10 + (f % 10));
    }
}

proof fn lemma_unsigned_round_trip(m: nat, d: nat)
    ensures
        unsigned_token_val(spec_unsigned_fixed(m, d), d) == Some(m as int),
        spec_unsigned_fixed(m, d).len() >= 1,
        is_digit(spec_unsigned_fixed(m, d)[0]),
{
    if d == 0 {
        let s = spec_digits(m);
        lemma_spec_digits_all(m);
        assert(forall|i: int| 0 <= i < s.len() ==> s[i] != '.') by {
            assert(forall|i: int| 0 <= i < s.len() ==> is_digit(#[trigger] s[i]));
            assert('.' as u32 == 46);
        }
        lemma_first_at(s, '.', 0, s.len() as int);
        assert(digits_val(s) * pow10(0) == m);
    } else {
        let p10 = pow10(d);
        lemma_pow10_mono(0, d);
        let ds = spec_digits(m / p10);
        let fs = spec_frac_digits(m % p10, d);
        let s = spec_unsigned_fixed(m, d);
        assert(s == ds + seq!['.'] + fs);
        lemma_spec_digits_all(m / p10);
        lemma_frac_digits_all(m % p10, d);
        let p = ds.len() as int;
        assert(s.len() == ds.len() + 1 + d);
        assert(forall|i: int| 0 <= i < p ==> s[i] == ds[i]);
        assert(s[p] == '.');
        assert(forall|i: int| 0 <= i < p ==> s[i] != '.') by {
            assert(forall|i: int| 0 <= i < ds.len() ==> is_digit(#[trigger] ds[i]));
            assert('.' as u32 == 46);
        }
        lemma_first_at(s, '.', 0, p);
        assert(s.subrange(0, p) =~= ds);
        assert(s.subrange(p + 1, s.len() as int) =~= fs);
        assert(pow10((d - fs.len()) as nat) == 1);
        vstd::arithmetic::div_mod::lemma_fundamental_div_mod(m as int, p10 as int);
        assert(digits_val(ds) * pow10(d) + digits_val(fs) * 1 == m);
        assert(is_digit(s[0]));
    }
}

/// Round trip of the fixed-point codec: rendering a scaled value at scale
/// `d` and parsing the rendered token back at the same scale returns the
/// value, for every value and every scale.
pub proof fn lemma_fixed_round_trip(v: int, d: nat)
    ensures
        token_val(spec_fixed(v, d), d) == Some(v),
{
    if v < 0 {
        let m = (-v) as nat;
        lemma_unsigned_round_trip(m, d);
        let u = spec_unsigned_fixed(m, d);
        let s = seq!['-'] + u;
        assert(spec_fixed(v, d) == s);
        assert(s[0] == '-');
        assert(s.drop_first() =~= u);
    } else {
        lemma_unsigned_round_trip(v as nat, d);
        let s = spec_unsigned_fixed(v as nat, d);
        assert(is_digit(s[0]));
        assert(s[0] != '-' && s[0] != '+') by {
            assert('-' as u32 == 45 && '+' as u32 == 43);
        }
    }
}

} // verus!
