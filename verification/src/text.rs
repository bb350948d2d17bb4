//! Character-level text helpers shared by the planner, the renderers and the
//! reply handling: whitespace trimming, substring search, digit runs and
//! decimal / fixed-point rendering.
use vstd::prelude::*;
use vstd::string::*;

verus! {

// ---------------------------------------------------------------------------
// Whitespace and trimming
// ---------------------------------------------------------------------------

/// The Unicode `White_Space` property, the set that `char::is_whitespace`
/// and `str::trim` use.
pub open spec fn is_white_space_char(c: char) -> bool {
    let u = c as u32;
    ||| 9 <= u <= 13
    ||| u == 32
    ||| u == 0x85
    ||| u == 0xA0
    ||| u == 0x1680
    ||| 0x2000 <= u <= 0x200A
    ||| u == 0x2028
    ||| u == 0x2029
    ||| u == 0x202F
    ||| u == 0x205F
    ||| u == 0x3000
}

/// Whether `c` has the Unicode `White_Space` property.
pub fn is_white_space(c: char) -> (b: bool)
    ensures
        b == is_white_space_char(c),
{
    let u = c as u32;
    (9 <= u && u <= 13) || u == 32 || u == 0x85 || u == 0xA0 || u == 0x1680 || (0x2000 <= u && u
        <= 0x200A) || u == 0x2028 || u == 0x2029 || u == 0x202F || u == 0x205F || u == 0x3000
}

/// `s` without its leading whitespace.
pub open spec fn trim_front(s: Seq<char>) -> Seq<char>
    decreases s.len(),
{
    if s.len() > 0 && is_white_space_char(s[0]) {
        trim_front(s.drop_first())
    } else {
        s
    }
}

/// `s` without its trailing whitespace.
pub open spec fn trim_back(s: Seq<char>) -> Seq<char>
    decreases s.len(),
{
    if s.len() > 0 && is_white_space_char(s.last()) {
        trim_back(s.drop_last())
    } else {
        s
    }
}

/// `s` without leading and trailing whitespace, as `str::trim` gives it.
pub open spec fn trimmed(s: Seq<char>) -> Seq<char> {
    trim_back(trim_front(s))
}

/// Every character of `s` is whitespace (so `s` trims to nothing).
pub open spec fn all_white_space(s: Seq<char>) -> bool {
    forall|i: int| 0 <= i < s.len() ==> is_white_space_char(#[trigger] s[i])
}

proof fn lemma_trim_front_at(s: Seq<char>, lo: int)
    requires
        0 <= lo <= s.len(),
        forall|j: int| 0 <= j < lo ==> is_white_space_char(#[trigger] s[j]),
        lo == s.len() || !is_white_space_char(s[lo]),
    ensures
        trim_front(s) == s.subrange(lo, s.len() as int),
    decreases lo,
{
    if lo == 0 {
        assert(s.subrange(0, s.len() as int) =~= s);
    } else {
        let t = s.drop_first();
        assert forall|j: int| 0 <= j < lo - 1 implies is_white_space_char(#[trigger] t[j]) by {
            assert(t[j] == s[j + 1]);
        }
        lemma_trim_front_at(t, lo - 1);
        assert(t.subrange(lo - 1, t.len() as int) =~= s.subrange(lo, s.len() as int));
    }
}

proof fn lemma_trim_back_at(s: Seq<char>, hi: int)
    requires
        0 <= hi <= s.len(),
        forall|j: int| hi <= j < s.len() ==> is_white_space_char(#[trigger] s[j]),
        hi == 0 || !is_white_space_char(s[hi - 1]),
    ensures
        trim_back(s) == s.subrange(0, hi),
    decreases s.len() - hi,
{
    if hi == s.len() {
        assert(s.subrange(0, hi) =~= s);
    } else {
        let t = s.drop_last();
        assert forall|j: int| hi <= j < t.len() implies is_white_space_char(#[trigger] t[j]) by {
            assert(t[j] == s[j]);
        }
        lemma_trim_back_at(t, hi);
        assert(t.subrange(0, hi) =~= s.subrange(0, hi));
    }
}

/// Whole-string whitespace check: trimming gives nothing exactly when every
/// character is whitespace.
pub proof fn lemma_trimmed_empty(s: Seq<char>)
    ensures
        (trimmed(s).len() == 0) == all_white_space(s),
    decreases s.len(),
{
    if s.len() > 0 && is_white_space_char(s[0]) {
        lemma_trimmed_empty(s.drop_first());
        if all_white_space(s.drop_first()) {
            assert forall|i: int| 0 <= i < s.len() implies is_white_space_char(#[trigger] s[i]) by {
                if i > 0 {
                    assert(s[i] == s.drop_first()[i - 1]);
                }
            }
        } else {
            let k = choose|k: int|
                0 <= k < s.drop_first().len() && !is_white_space_char(#[trigger] s.drop_first()[k]);
            assert(s[k + 1] == s.drop_first()[k]);
        }
    } else if s.len() > 0 {
        // the first character stays, so trimming keeps something
        lemma_trim_back_keeps_first(s);
    }
}

proof fn lemma_trim_back_keeps_first(s: Seq<char>)
    requires
        s.len() > 0,
        !is_white_space_char(s[0]),
    ensures
        trim_back(s).len() > 0,
    decreases s.len(),
{
    if is_white_space_char(s.last()) {
        assert(s.len() > 1);
        lemma_trim_back_keeps_first(s.drop_last());
    }
}

proof fn lemma_trim_front_first(s: Seq<char>)
    ensures
        trim_front(s).len() > 0 ==> !is_white_space_char(trim_front(s)[0]),
    decreases s.len(),
{
    if s.len() > 0 && is_white_space_char(s[0]) {
        lemma_trim_front_first(s.drop_first());
    }
}

proof fn lemma_trim_back_prefix(s: Seq<char>)
    ensures
        trim_back(s).len() <= s.len(),
        forall|i: int| 0 <= i < trim_back(s).len() ==> #[trigger] trim_back(s)[i] == s[i],
        trim_back(s).len() > 0 ==> !is_white_space_char(trim_back(s).last()),
    decreases s.len(),
{
    if s.len() > 0 && is_white_space_char(s.last()) {
        lemma_trim_back_prefix(s.drop_last());
    }
}

/// Trimming twice gives what trimming once gives.
pub proof fn lemma_trim_idempotent(s: Seq<char>)
    ensures
        trimmed(trimmed(s)) == trimmed(s),
{
    let f = trim_front(s);
    let t = trim_back(f);
    lemma_trim_front_first(s);
    lemma_trim_back_prefix(f);
    if t.len() > 0 {
        assert(t[0] == f[0]);
        assert(trim_front(t) == t);
        assert(trim_back(t) == t);
    }
}

/// The characters of `s`, in order.
pub fn chars_of(s: &str) -> (v: Vec<char>)
    ensures
        v@ == s@,
{
    let mut v: Vec<char> = Vec::new();
    for c in it: s.chars()
        invariant
            v@ == it.seq().take(it.index() as int),
    {
        v.push(c);
    }
    v
}

/// Index of the first non-whitespace character of `v` (or its length).
fn trim_start_index(v: &Vec<char>) -> (lo: usize)
    ensures
        lo <= v.len(),
        forall|j: int| 0 <= j < lo ==> is_white_space_char(#[trigger] v@[j]),
        lo == v.len() || !is_white_space_char(v@[lo as int]),
{
    let mut lo: usize = 0;
    while lo < v.len() && is_white_space(v[lo])
        invariant
            lo <= v.len(),
            forall|j: int| 0 <= j < lo ==> is_white_space_char(#[trigger] v@[j]),
        decreases v.len() - lo,
    {
        lo = lo + 1;
    }
    lo
}

/// `s` with leading and trailing whitespace removed, as `str::trim` does.
pub fn trim(s: &str) -> (t: &str)
    ensures
        t@ == trimmed(s@),
{
    let v = chars_of(s);
    let lo = trim_start_index(&v);
    let mut hi: usize = v.len();
    while hi > lo && is_white_space(v[hi - 1])
        invariant
            lo <= hi <= v.len(),
            forall|j: int| hi <= j < v.len() ==> is_white_space_char(#[trigger] v@[j]),
        decreases hi,
    {
        hi = hi - 1;
    }
    proof {
        lemma_trim_front_at(v@, lo as int);
        let f = v@.subrange(lo as int, v@.len() as int);
        assert forall|j: int| hi - lo <= j < f.len() implies is_white_space_char(#[trigger] f[j]) by {
            assert(f[j] == v@[j + lo]);
        }
        if hi > lo {
            assert(f[hi - lo - 1] == v@[hi - 1]);
        }
        lemma_trim_back_at(f, hi - lo);
        assert(f.subrange(0, hi - lo) =~= v@.subrange(lo as int, hi as int));
    }
    s.substring_char(lo, hi)
}

/// Whether `s` holds only whitespace (including when it is empty).
pub fn is_blank(s: &str) -> (b: bool)
    ensures
        b == all_white_space(s@),
        b == (trimmed(s@).len() == 0),
{
    proof {
        lemma_trimmed_empty(s@);
    }
    let v = chars_of(s);
    let lo = trim_start_index(&v);
    lo == v.len()
}

/// The Unicode lower-case mapping of a whole string, as `str::to_lowercase`
/// computes it.
pub uninterp spec fn lowercase(s: Seq<char>) -> Seq<char>;

/// `str::to_lowercase`: the result is the lower-case mapping of `s`, named
/// by `lowercase`; the Unicode tables behind it are not restated here.
#[verifier::external_body]
pub(crate) fn to_lowercase(s: &str) -> (r: String)
    ensures
        r@ == lowercase(s@),
{
    s.to_lowercase()
}

/// Whether the two strings hold the same characters.
pub fn str_equal(a: &str, b: &str) -> (r: bool)
    ensures
        r == (a@ == b@),
{
    let x = chars_of(a);
    let y = chars_of(b);
    if x.len() != y.len() {
        return false;
    }
    let mut i: usize = 0;
    while i < x.len()
        invariant
            x@ == a@,
            y@ == b@,
            x.len() == y.len(),
            i <= x.len(),
            forall|k: int| 0 <= k < i ==> x@[k] == y@[k],
        decreases x.len() - i,
    {
        if x[i] != y[i] {
            assert(x@[i as int] != y@[i as int]);
            return false;
        }
        i = i + 1;
    }
    assert(x@ =~= y@);
    true
}

// ---------------------------------------------------------------------------
// Substring search
// ---------------------------------------------------------------------------

/// `p` occurs in `s` starting at position `i`.
pub open spec fn occurs_at(s: Seq<char>, p: Seq<char>, i: int) -> bool {
    0 <= i && i + p.len() <= s.len() && s.subrange(i, i + p.len()) == p
}

/// `p` occurs somewhere in `s`, as `str::contains` tests it.
pub open spec fn has_substring(s: Seq<char>, p: Seq<char>) -> bool {
    exists|i: int| occurs_at(s, p, i)
}

/// Some pattern of `pats` occurs in `s`.
pub open spec fn has_any_substring(s: Seq<char>, pats: Seq<Seq<char>>) -> bool {
    exists|k: int| 0 <= k < pats.len() && has_substring(s, #[trigger] pats[k])
}

fn matches_at(s: &Vec<char>, p: &Vec<char>, i: usize) -> (b: bool)
    requires
        i + p.len() <= s.len(),
    ensures
        b == occurs_at(s@, p@, i as int),
{
    let mut j: usize = 0;
    while j < p.len()
        invariant
            i + p.len() <= s.len(),
            j <= p.len(),
            forall|k: int| 0 <= k < j ==> s@[i + k] == p@[k],
        decreases p.len() - j,
    {
        if s[i + j] != p[j] {
            assert(s@.subrange(i as int, i + p.len())[j as int] != p@[j as int]);
            return false;
        }
        j = j + 1;
    }
    assert(s@.subrange(i as int, i + p.len()) =~= p@);
    true
}

/// Whether `p` occurs in `s`.
pub fn contains_chars(s: &Vec<char>, p: &Vec<char>) -> (b: bool)
    ensures
        b == has_substring(s@, p@),
{
    if p.len() > s.len() {
        return false;
    }
    if p.len() == 0 {
        assert(s@.subrange(0, 0) =~= p@);
        assert(occurs_at(s@, p@, 0));
        return true;
    }
    let last = s.len() - p.len();
    let mut i: usize = 0;
    while i <= last
        invariant
            last == s.len() - p.len(),
            1 <= p.len() <= s.len(),
            i <= last + 1,
            forall|k: int| 0 <= k < i ==> !occurs_at(s@, p@, k),
        decreases last + 1 - i,
    {
        if matches_at(s, p, i) {
            return true;
        }
        i = i + 1;
    }
    assert forall|k: int| !occurs_at(s@, p@, k) by {
        if 0 <= k < i {
        }
    }
    false
}

/// Whether `pattern` occurs in `text`, as `str::contains` reports it.
pub fn contains_str(text: &str, pattern: &str) -> (b: bool)
    ensures
        b == has_substring(text@, pattern@),
{
    let s = chars_of(text);
    let p = chars_of(pattern);
    contains_chars(&s, &p)
}

// ---------------------------------------------------------------------------
// Digits
// ---------------------------------------------------------------------------

/// `c` is one of `'0'..='9'`.
pub open spec fn is_digit_char(c: char) -> bool {
    '0' <= c <= '9'
}

/// The value of an ASCII digit.
pub open spec fn digit_value(c: char) -> nat {
    (c as u32 - '0' as u32) as nat
}

/// The character of a digit `0..=9`.
pub open spec fn digit_of(d: nat) -> char {
    (d + 48) as char
}

/// The decimal number written by the digits `ds`.
pub open spec fn digits_value(ds: Seq<char>) -> nat
    decreases ds.len(),
{
    if ds.len() == 0 {
        0
    } else {
        digits_value(ds.drop_last()) * 10 + digit_value(ds.last())
    }
}

/// The longest run of digits at the start of `s`.
pub open spec fn leading_digits(s: Seq<char>) -> Seq<char>
    decreases s.len(),
{
    if s.len() > 0 && is_digit_char(s[0]) {
        seq![s[0]] + leading_digits(s.drop_first())
    } else {
        Seq::empty()
    }
}

/// The first maximal run of digits in `s` (empty when `s` has no digit).
pub open spec fn first_digit_run(s: Seq<char>) -> Seq<char>
    decreases s.len(),
{
    if s.len() == 0 {
        Seq::empty()
    } else if is_digit_char(s[0]) {
        leading_digits(s)
    } else {
        first_digit_run(s.drop_first())
    }
}

/// Decimal digits of `n`, most significant first, without leading zeros.
pub open spec fn decimal_digits(n: nat) -> Seq<char>
    decreases n,
{
    if n < 10 {
        seq![digit_of(n)]
    } else {
        decimal_digits(n / 10).push(digit_of(n % 10))
    }
}

/// The last `width` decimal digits of `n`, padded with zeros on the left.
pub open spec fn padded_digits(n: nat, width: nat) -> Seq<char>
    decreases width,
{
    if width == 0 {
        Seq::empty()
    } else {
        padded_digits(n / 10, (width - 1) as nat).push(digit_of(n % 10))
    }
}

/// Whether `c` is an ASCII digit.
pub fn is_digit(c: char) -> (b: bool)
    ensures
        b == is_digit_char(c),
{
    '0' <= c && c <= '9'
}

/// `String::push`: appends the character `c` at the end of `s`.
#[verifier::external_body]
pub(crate) fn push_char(s: &mut String, c: char)
    ensures
        final(s)@ == old(s)@.push(c),
{
    s.push(c)
}

/// The character of the digit `d`.
pub fn digit_char(d: u64) -> (c: char)
    requires
        d < 10,
    ensures
        c == digit_of(d as nat),
{
    (48u8 + d as u8) as char
}

/// Appends the decimal digits of `n` to `out`.
pub fn push_decimal(out: &mut String, n: u128)
    ensures
        final(out)@ == old(out)@ + decimal_digits(n as nat),
    decreases n,
{
    if n >= 10 {
        push_decimal(out, n / 10);
    }
    push_char(out, digit_char((n % 10) as u64));
}

/// Appends the last `width` digits of `n`, zero padded, to `out`.
pub fn push_padded(out: &mut String, n: u128, width: u32)
    ensures
        final(out)@ == old(out)@ + padded_digits(n as nat, width as nat),
    decreases width,
{
    if width > 0 {
        push_padded(out, n / 10, width - 1);
        push_char(out, digit_char((n % 10) as u64));
    }
}

// ---------------------------------------------------------------------------
// Fixed-point numbers, written as their single-precision float is written
// ---------------------------------------------------------------------------

/// `10^k` for the small exponents that fixed-point rendering uses.
pub open spec fn pow10(k: nat) -> nat
    decreases k,
{
    if k == 0 {
        1
    } else {
        10 * pow10((k - 1) as nat)
    }
}

/// `n / d` rounded to the nearest integer, ties to the even one.
pub open spec fn round_half_even(n: nat, d: nat) -> nat {
    let q = n / d;
    let r = n % d;
    if 2 * r > d || (2 * r == d && q % 2 == 1) {
        q + 1
    } else {
        q
    }
}

/// `2^23 · 1000`: a number of thousandths from which on the value has a
/// binary exponent of at least 23.
pub open spec fn low_thousandths() -> nat {
    8388608000
}

/// `2^24 · 1000`.
pub open spec fn high_thousandths() -> nat {
    16777216000
}

/// `(n · 2^s, 2^s)` for the least `s` with `n · 2^s ≥ 2^23 · 1000`, starting
/// from `(n, p)` and doubling both (for `n > 0`).
pub open spec fn scale_up(n: nat, p: nat) -> (nat, nat)
    decreases 2 * high_thousandths() - n,
{
    if n == 0 || n >= low_thousandths() {
        (n, p)
    } else {
        scale_up(2 * n, 2 * p)
    }
}

/// `p · 2^k` for the least `k` with `a < bound · 2^k`, starting from `bound`
/// and `p` and doubling both.
pub open spec fn scale_down(a: nat, bound: nat, p: nat) -> nat
    decreases 2 * a - bound,
{
    if bound == 0 || a < bound {
        p
    } else {
        scale_down(a, 2 * bound, 2 * p)
    }
}

/// The single-precision float nearest to `a / 1000` (24 significant bits,
/// ties to an even significand), times `10^decimals`, rounded to an integer
/// with ties to even. Its digits are what `{:.N}` writes for that float.
///
/// Below `2^23` the float is `mant / p` with `a · p / 1000` scaled into
/// `[2^23, 2^24)`; from `2^23` up it is `mant · p` with `a / (1000 · p)` in
/// that range.
pub open spec fn float_scaled(a: nat, decimals: nat) -> nat {
    if a == 0 {
        0
    } else if a < low_thousandths() {
        let (n, p) = scale_up(a, 1);
        round_half_even(round_half_even(n, 1000) * pow10(decimals), p)
    } else {
        let p = scale_down(a, high_thousandths(), 1);
        round_half_even(a, 1000 * p) * p * pow10(decimals)
    }
}

/// Text of the single-precision float nearest to `m / 1000`, written with
/// `decimals` (1 to 3) digits after the point as `{:.N}` writes a float: a
/// minus sign for negative values, then the float's exact value rounded to
/// `decimals` decimals with ties to even, as integer part, point and
/// zero-padded fraction.
pub open spec fn fixed_text(m: int, decimals: nat) -> Seq<char> {
    let a: nat = if m < 0 {
        (-m) as nat
    } else {
        m as nat
    };
    let rounded = float_scaled(a, decimals);
    let scale = pow10(decimals);
    let sign: Seq<char> = if m < 0 {
        seq!['-']
    } else {
        Seq::empty()
    };
    sign + decimal_digits(rounded / scale) + seq!['.'] + padded_digits(rounded % scale, decimals)
}

fn pow10_exec(k: u32) -> (p: u128)
    requires
        k <= 3,
    ensures
        p == pow10(k as nat),
        1 <= p <= 1000,
{
    if k == 0 {
        1
    } else if k == 1 {
        assert(pow10(1) == 10 * pow10(0));
        10
    } else if k == 2 {
        assert(pow10(1) == 10 * pow10(0));
        assert(pow10(2) == 10 * pow10(1));
        100
    } else {
        assert(pow10(1) == 10 * pow10(0));
        assert(pow10(2) == 10 * pow10(1));
        assert(pow10(3) == 10 * pow10(2));
        1000
    }
}

fn round_half_even_exec(n: u128, d: u128) -> (r: u128)
    requires
        0 < d < 0x1_0000_0000_0000_0000_0000_0000,
        n < 0x1_0000_0000_0000_0000_0000_0000,
    ensures
        r == round_half_even(n as nat, d as nat),
        r <= n / d + 1,
{
    let q = n / d;
    let r = n % d;
    if 2 * r > d || (2 * r == d && q % 2 == 1) {
        q + 1
    } else {
        q
    }
}

/// `float_scaled(a, decimals)`.
fn float_scaled_exec(a: u64, decimals: u32) -> (r: u128)
    requires
        decimals <= 3,
    ensures
        r == float_scaled(a as nat, decimals as nat),
{
    let t = pow10_exec(decimals);
    if a == 0 {
        return 0;
    }
    let low: u128 = 8388608000;
    let high: u128 = 16777216000;
    if (a as u128) < low {
        let mut n: u128 = a as u128;
        let mut p: u128 = 1;
        while n < low
            invariant
                low == 8388608000,
                high == 16777216000,
                1 <= p <= n < high,
                scale_up(n as nat, p as nat) == scale_up(a as nat, 1),
            decreases high - n,
        {
            n = 2 * n;
            p = 2 * p;
        }
        let mant = round_half_even_exec(n, 1000);
        assert(n / 1000 < 16777216) by (nonlinear_arith)
            requires
                n < 16777216000,
        ;
        assert(mant * t <= 16777216u128 * 1000) by (nonlinear_arith)
            requires
                mant <= 16777216,
                t <= 1000,
        ;
        round_half_even_exec(mant * t, p)
    } else {
        let mut bound: u128 = high;
        let mut p: u128 = 1;
        while (a as u128) >= bound
            invariant
                bound == high * p,
                high == 16777216000,
                1 <= p,
                bound <= 2 * (a as u128),
                scale_down(a as nat, bound as nat, p as nat) == scale_down(
                    a as nat,
                    high_thousandths(),
                    1,
                ),
            decreases 2 * (a as u128) - bound,
        {
            bound = 2 * bound;
            p = 2 * p;
        }
        let div = 1000 * p;
        let mant = round_half_even_exec(a as u128, div);
        assert((a as u128) / div < 16777216) by (nonlinear_arith)
            requires
                (a as u128) < 16777216 * div,
                div > 0,
        ;
        assert(p <= 0x1_0000_0000);
        assert(mant * p <= 16777216u128 * 0x1_0000_0000) by (nonlinear_arith)
            requires
                mant <= 16777216,
                p <= 0x1_0000_0000,
        ;
        assert(mant * p * t <= 16777216u128 * 0x1_0000_0000 * 1000) by (nonlinear_arith)
            requires
                mant <= 16777216,
                p <= 0x1_0000_0000,
                t <= 1000,
        ;
        mant * p * t
    }
}

/// `d` as the nearest single-precision float (24 significant bits, ties to
/// an even significand): unchanged below `2^24`, a multiple of `2^k` above.
pub open spec fn float_rounded_count(d: nat) -> nat {
    if d < 16777216 {
        d
    } else {
        let p = scale_down(d, 16777216, 1);
        round_half_even(d, p) * p
    }
}

/// `float_rounded_count(d)`.
pub fn float_rounded_count_exec(d: u32) -> (r: u64)
    ensures
        r == float_rounded_count(d as nat),
        r <= 0x2_0000_0000,
{
    if d < 16777216 {
        return d as u64;
    }
    let mut bound: u128 = 16777216;
    let mut p: u128 = 1;
    while (d as u128) >= bound
        invariant
            bound == 16777216 * p,
            1 <= p,
            bound <= 2 * (d as u128),
            scale_down(d as nat, bound as nat, p as nat) == scale_down(d as nat, 16777216, 1),
        decreases 2 * (d as u128) - bound,
    {
        bound = 2 * bound;
        p = 2 * p;
    }
    let mant = round_half_even_exec(d as u128, p);
    assert((d as u128) / p < 16777216) by (nonlinear_arith)
        requires
            (d as u128) < 16777216 * p,
            p > 0,
    ;
    assert(p <= 512);
    assert(mant * p <= 16777216u128 * 512) by (nonlinear_arith)
        requires
            mant <= 16777216,
            p <= 512,
    ;
    (mant * p) as u64
}

/// Appends the single-precision float nearest to `m / 1000`, written with
/// `decimals` digits after the point, to `out` (see `fixed_text`).
pub fn push_fixed(out: &mut String, m: i64, decimals: u32)
    requires
        1 <= decimals <= 3,
    ensures
        final(out)@ == old(out)@ + fixed_text(m as int, decimals as nat),
{
    let neg = m < 0;
    let a: u64 = if neg {
        ((-(m + 1)) as u64) + 1
    } else {
        m as u64
    };
    let rounded = float_scaled_exec(a, decimals);
    let scale = pow10_exec(decimals);
    let ghost start = out@;
    if neg {
        push_char(out, '-');
    }
    push_decimal(out, rounded / scale);
    push_char(out, '.');
    push_padded(out, rounded % scale, decimals);
    assert(out@ =~= start + fixed_text(m as int, decimals as nat));
}

} // verus!
