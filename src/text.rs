//! String predicates and conversions, stated over `Seq<char>`.

use vstd::prelude::*;
use vstd::string::*;

verus! {

/// Whether `c` is one of `0` to `9`.
pub open spec fn is_ascii_digit(c: char) -> bool {
    '0' <= c && c <= '9'
}

/// Whether every character of `s` is an ASCII digit.
pub open spec fn all_ascii_digits(s: Seq<char>) -> bool {
    forall|i: int| 0 <= i < s.len() ==> is_ascii_digit(#[trigger] s[i])
}

/// The value of a run of decimal digits, most significant first.
pub open spec fn digits_value(s: Seq<char>) -> int
    decreases s.len(),
{
    if s.len() == 0 {
        0
    } else {
        digits_value(s.drop_last()) * 10 + (s.last() as int - '0' as int)
    }
}

/// What `str::parse::<i64>` yields: an optional sign, at least one ASCII
/// digit and nothing else, with a value inside the range of `i64`.
pub open spec fn parse_int(s: Seq<char>) -> Option<int> {
    let negative = s.len() > 0 && s[0] == '-';
    let signed = s.len() > 0 && (s[0] == '-' || s[0] == '+');
    let digits = if signed { s.subrange(1, s.len() as int) } else { s };
    if digits.len() == 0 || !all_ascii_digits(digits) {
        None
    } else {
        let v = if negative { -digits_value(digits) } else { digits_value(digits) };
        if i64::MIN <= v <= i64::MAX { Some(v) } else { None }
    }
}

/// `parse_int` with a missing value read as zero.
pub open spec fn int_or_zero(s: Seq<char>) -> int {
    match parse_int(s) {
        Some(v) => v,
        None => 0,
    }
}

proof fn lemma_digits_value_nonneg(s: Seq<char>)
    requires
        all_ascii_digits(s),
    ensures
        digits_value(s) >= 0,
    decreases s.len(),
{
    if s.len() > 0 {
        lemma_digits_value_nonneg(s.drop_last());
    }
}

/// A prefix of a digit run never has a larger value than the run.
proof fn lemma_digits_prefix_le(s: Seq<char>, k: int)
    requires
        all_ascii_digits(s),
        0 <= k <= s.len(),
    ensures
        digits_value(s.take(k)) <= digits_value(s),
    decreases s.len(),
{
    if k < s.len() {
        let t = s.drop_last();
        assert(t.take(k) =~= s.take(k));
        lemma_digits_prefix_le(t, k);
        lemma_digits_value_nonneg(t);
    } else {
        assert(s.take(k) =~= s);
    }
}

/// Whether `a` and `b` hold the same characters.
pub fn str_eq(a: &str, b: &str) -> (r: bool)
    ensures
        r == (a@ == b@),
{
    let n = a.unicode_len();
    if n != b.unicode_len() {
        return false;
    }
    let mut i: usize = 0;
    while i < n
        invariant
            n == a@.len(),
            n == b@.len(),
            i <= n,
            a@.take(i as int) =~= b@.take(i as int),
        decreases n - i,
    {
        if a.get_char(i) != b.get_char(i) {
            assert(a@[i as int] != b@[i as int]);
            return false;
        }
        assert(a@.take(i + 1) =~= a@.take(i as int).push(a@[i as int]));
        assert(b@.take(i + 1) =~= b@.take(i as int).push(b@[i as int]));
        i = i + 1;
    }
    assert(a@ =~= a@.take(n as int));
    assert(b@ =~= b@.take(n as int));
    true
}

/// Whether `s` begins with `prefix`.
pub fn starts_with(s: &str, prefix: &str) -> (r: bool)
    ensures
        r == prefix@.is_prefix_of(s@),
{
    let n = prefix.unicode_len();
    if n > s.unicode_len() {
        return false;
    }
    let mut i: usize = 0;
    while i < n
        invariant
            n == prefix@.len(),
            n <= s@.len(),
            i <= n,
            forall|j: int| 0 <= j < i ==> prefix@[j] == s@[j],
        decreases n - i,
    {
        if prefix.get_char(i) != s.get_char(i) {
            return false;
        }
        i = i + 1;
    }
    true
}

/// `str::parse::<i64>`, as `parse_int` states it.
pub fn parse_i64(s: &str) -> (r: Option<i64>)
    ensures
        r matches Some(v) ==> parse_int(s@) == Some(v as int),
        r is None ==> parse_int(s@) is None,
{
    let n = s.unicode_len();
    if n == 0 {
        return None;
    }
    let first = s.get_char(0);
    let negative = first == '-';
    let start: usize = if first == '-' || first == '+' { 1 } else { 0 };
    let ghost digits = if start == 1 { s@.subrange(1, s@.len() as int) } else { s@ };
    if start == n {
        return None;
    }
    let mut acc: i64 = 0;
    let mut i: usize = start;
    while i < n
        invariant
            n == s@.len(),
            start <= i <= n,
            start == 0 || start == 1,
            start == 0 ==> digits == s@,
            start == 1 ==> digits == s@.subrange(1, n as int),
            negative == (s@[0] == '-'),
            start == 1 <==> (s@[0] == '-' || s@[0] == '+'),
            all_ascii_digits(digits.take(i - start)),
            negative ==> acc == -digits_value(digits.take(i - start)),
            !negative ==> acc == digits_value(digits.take(i - start)),
        decreases n - i,
    {
        let c = s.get_char(i);
        let ghost k = (i - start) as int;
        if !('0' <= c && c <= '9') {
            assert(digits[k] == c);
            return None;
        }
        let d = (c as u32 - '0' as u32) as i64;
        assert(digits.take(k + 1).drop_last() =~= digits.take(k));
        assert(digits.take(k + 1).last() == c);
        let next = if negative {
            match acc.checked_mul(10) {
                Some(m) => m.checked_sub(d),
                None => None,
            }
        } else {
            match acc.checked_mul(10) {
                Some(m) => m.checked_add(d),
                None => None,
            }
        };
        match next {
            Some(v) => {
                acc = v;
            },
            None => {
                proof {
                    let prev = digits_value(digits.take(k));
                    let pv = digits_value(digits.take(k + 1));
                    assert(pv == prev * 10 + d);
                    lemma_digits_value_nonneg(digits.take(k));
                    assert(pv > i64::MAX + (if negative { 1int } else { 0int })) by (nonlinear_arith)
                        requires
                            pv == prev * 10 + d,
                            prev >= 0,
                            0 <= d <= 9,
                            negative ==> (acc == -prev && (acc * 10 < i64::MIN || acc * 10 - d < i64::MIN)),
                            !negative ==> (acc == prev && (acc * 10 > i64::MAX || acc * 10 + d > i64::MAX)),
                    ;
                    if all_ascii_digits(digits) {
                        lemma_digits_prefix_le(digits, k + 1);
                    }
                }
                return None;
            },
        }
        i = i + 1;
    }
    assert(digits.take(n - start) =~= digits);
    Some(acc)
}

/// The decimal digit `d` as a one-character string.
pub open spec fn digit_text(d: nat) -> &'static str {
    if d == 0 {
        "0"
    } else if d == 1 {
        "1"
    } else if d == 2 {
        "2"
    } else if d == 3 {
        "3"
    } else if d == 4 {
        "4"
    } else if d == 5 {
        "5"
    } else if d == 6 {
        "6"
    } else if d == 7 {
        "7"
    } else if d == 8 {
        "8"
    } else {
        "9"
    }
}

/// `n` written in decimal, without leading zeros.
pub open spec fn decimal(n: nat) -> Seq<char>
    decreases n,
{
    if n < 10 {
        digit_text(n)@
    } else {
        decimal(n / 10) + digit_text(n % 10)@
    }
}

fn digit(d: usize) -> (r: &'static str)
    requires
        d < 10,
    ensures
        r == digit_text(d as nat),
{
    if d == 0 {
        "0"
    } else if d == 1 {
        "1"
    } else if d == 2 {
        "2"
    } else if d == 3 {
        "3"
    } else if d == 4 {
        "4"
    } else if d == 5 {
        "5"
    } else if d == 6 {
        "6"
    } else if d == 7 {
        "7"
    } else if d == 8 {
        "8"
    } else {
        "9"
    }
}

/// `n` written in decimal, as `format!("{}", n)` writes it.
pub fn decimal_string(n: usize) -> (r: String)
    ensures
        r@ == decimal(n as nat),
    decreases n,
{
    if n < 10 {
        String::from_str(digit(n))
    } else {
        let mut s = decimal_string(n / 10);
        s.append(digit(n % 10));
        s
    }
}

proof fn lemma_digit_text(d: nat)
    requires
        d < 10,
    ensures
        digit_text(d)@.len() == 1,
        is_ascii_digit(digit_text(d)@[0]),
        digit_text(d)@[0] as u32 == 48 + d,
{
    reveal_strlit("0");
    reveal_strlit("1");
    reveal_strlit("2");
    reveal_strlit("3");
    reveal_strlit("4");
    reveal_strlit("5");
    reveal_strlit("6");
    reveal_strlit("7");
    reveal_strlit("8");
    reveal_strlit("9");
}

/// A decimal numeral is a non-empty run of digits, a single one exactly for
/// numbers below ten.
pub proof fn lemma_decimal_digits(n: nat)
    ensures
        decimal(n).len() >= 1,
        (decimal(n).len() == 1) == (n < 10),
        all_ascii_digits(decimal(n)),
    decreases n,
{
    if n < 10 {
        lemma_digit_text(n);
    } else {
        lemma_decimal_digits(n / 10);
        lemma_digit_text(n % 10);
        let a = decimal(n / 10);
        let b = digit_text(n % 10)@;
        assert forall|i: int| 0 <= i < (a + b).len() implies is_ascii_digit(#[trigger] (a + b)[i]) by {
            if i < a.len() {
                assert((a + b)[i] == a[i]);
            } else {
                assert((a + b)[i] == b[i - a.len()]);
            }
        }
    }
}

/// Different numbers have different decimal numerals.
pub proof fn lemma_decimal_injective(a: nat, b: nat)
    requires
        decimal(a) == decimal(b),
    ensures
        a == b,
    decreases a,
{
    lemma_decimal_digits(a);
    lemma_decimal_digits(b);
    if a < 10 && b < 10 {
        lemma_digit_text(a);
        lemma_digit_text(b);
        assert(digit_text(a)@[0] == digit_text(b)@[0]);
    } else if a >= 10 && b >= 10 {
        let da = decimal(a);
        lemma_digit_text(a % 10);
        lemma_digit_text(b % 10);
        let pa = decimal(a / 10);
        let pb = decimal(b / 10);
        let la = digit_text(a % 10)@;
        let lb = digit_text(b % 10)@;
        assert(da.last() == la[0]);
        assert((pb + lb).last() == lb[0]);
        assert(pa =~= da.drop_last());
        assert(pb =~= (pb + lb).drop_last());
        lemma_decimal_injective(a / 10, b / 10);
    }
}

/// Whether `c` can occur in an encoded text: a digit or a dot.
pub open spec fn is_code_char(c: char) -> bool {
    is_ascii_digit(c) || c == '.'
}

/// A character written as the decimal number of its code point and a dot.
pub open spec fn char_code(c: char) -> Seq<char> {
    decimal(c as u32 as nat) + "."@
}

/// A text written character by character as `char_code`.
pub open spec fn encoded(s: Seq<char>) -> Seq<char>
    decreases s.len(),
{
    if s.len() == 0 {
        Seq::empty()
    } else {
        char_code(s[0]) + encoded(s.drop_first())
    }
}

/// Where `a1 + b1 == a2 + b2`, the `a`s are made of characters with property
/// `p` and each `b` starts with one without it (or is empty), the two
/// splits are the same.
pub proof fn lemma_split_at_mark(
    a1: Seq<char>,
    b1: Seq<char>,
    a2: Seq<char>,
    b2: Seq<char>,
    p: spec_fn(char) -> bool,
)
    requires
        a1 + b1 == a2 + b2,
        forall|i: int| 0 <= i < a1.len() ==> p(#[trigger] a1[i]),
        forall|i: int| 0 <= i < a2.len() ==> p(#[trigger] a2[i]),
        b1.len() > 0 ==> !p(b1[0]),
        b2.len() > 0 ==> !p(b2[0]),
    ensures
        a1 == a2,
        b1 == b2,
{
    let t = a1 + b1;
    if a1.len() < a2.len() {
        assert(t[a1.len() as int] == b1[0]);
        assert((a2 + b2)[a1.len() as int] == a2[a1.len() as int]);
    } else if a2.len() < a1.len() {
        assert((a2 + b2)[a2.len() as int] == b2[0]);
        assert(t[a2.len() as int] == a1[a2.len() as int]);
    }
    assert(a1 =~= t.subrange(0, a1.len() as int));
    assert(a2 =~= (a2 + b2).subrange(0, a2.len() as int));
    assert(b1 =~= t.skip(a1.len() as int));
    assert(b2 =~= (a2 + b2).skip(a2.len() as int));
}

/// An encoded text holds only digits and dots.
pub proof fn lemma_encoded_chars(s: Seq<char>)
    ensures
        forall|i: int| 0 <= i < encoded(s).len() ==> is_code_char(#[trigger] encoded(s)[i]),
    decreases s.len(),
{
    reveal_strlit(".");
    if s.len() > 0 {
        lemma_encoded_chars(s.drop_first());
        lemma_decimal_digits(s[0] as u32 as nat);
        let a = char_code(s[0]);
        let d = decimal(s[0] as u32 as nat);
        let b = encoded(s.drop_first());
        assert forall|i: int| 0 <= i < (a + b).len() implies is_code_char(#[trigger] (a + b)[i]) by {
            if i < d.len() {
                assert((a + b)[i] == d[i]);
            } else if i < a.len() {
                assert((a + b)[i] == '.');
            } else {
                assert((a + b)[i] == b[i - a.len()]);
            }
        }
    }
}

/// Different texts have different encodings.
pub proof fn lemma_encoded_injective(s1: Seq<char>, s2: Seq<char>)
    requires
        encoded(s1) == encoded(s2),
    ensures
        s1 == s2,
    decreases s1.len(),
{
    reveal_strlit(".");
    if s1.len() > 0 && s2.len() > 0 {
        let d1 = decimal(s1[0] as u32 as nat);
        let d2 = decimal(s2[0] as u32 as nat);
        let r1 = "."@ + encoded(s1.drop_first());
        let r2 = "."@ + encoded(s2.drop_first());
        assert(encoded(s1) =~= d1 + r1);
        assert(encoded(s2) =~= d2 + r2);
        lemma_decimal_digits(s1[0] as u32 as nat);
        lemma_decimal_digits(s2[0] as u32 as nat);
        lemma_split_at_mark(d1, r1, d2, r2, |c: char| is_ascii_digit(c));
        lemma_decimal_injective(s1[0] as u32 as nat, s2[0] as u32 as nat);
        vstd::utf8::char_u32_cast(s1[0], s1[0] as u32);
        vstd::utf8::char_u32_cast(s2[0], s2[0] as u32);
        assert(s1[0] == s2[0]);
        assert(encoded(s1.drop_first()) =~= r1.drop_first());
        assert(encoded(s2.drop_first()) =~= r2.drop_first());
        lemma_encoded_injective(s1.drop_first(), s2.drop_first());
        assert(s1 =~= seq![s1[0]] + s1.drop_first());
        assert(s2 =~= seq![s2[0]] + s2.drop_first());
        assert(s1 == s2);
    } else if s1.len() > 0 {
        lemma_decimal_digits(s1[0] as u32 as nat);
        assert(encoded(s2) == Seq::<char>::empty());
        assert(encoded(s1).len() >= char_code(s1[0]).len());
    } else if s2.len() > 0 {
        lemma_decimal_digits(s2[0] as u32 as nat);
        assert(encoded(s1) == Seq::<char>::empty());
        assert(encoded(s2).len() >= char_code(s2[0]).len());
    } else {
        assert(s1 =~= s2);
    }
}

proof fn lemma_encoded_push(s: Seq<char>, c: char)
    ensures
        encoded(s.push(c)) == encoded(s) + char_code(c),
    decreases s.len(),
{
    if s.len() == 0 {
        let t = s.push(c);
        assert(t.drop_first() =~= Seq::<char>::empty());
        assert(t[0] == c);
        assert(encoded(t.drop_first()) == Seq::<char>::empty());
        assert(encoded(t) == char_code(c) + encoded(t.drop_first()));
        assert(encoded(t) =~= char_code(c));
        assert(encoded(s) == Seq::<char>::empty());
    } else {
        assert(s.push(c).drop_first() =~= s.drop_first().push(c));
        lemma_encoded_push(s.drop_first(), c);
        assert(encoded(s.push(c)) =~= encoded(s) + char_code(c));
    }
}

/// `s` written character by character as the decimal code point and a dot,
/// so that the result holds only digits and dots.
pub fn encode(s: &str) -> (r: String)
    ensures
        r@ == encoded(s@),
{
    let n = s.unicode_len();
    let mut out = String::new();
    let mut i: usize = 0;
    while i < n
        invariant
            n == s@.len(),
            i <= n,
            out@ == encoded(s@.take(i as int)),
        decreases n - i,
    {
        let c = s.get_char(i);
        let code = decimal_string(c as u32 as usize);
        proof {
            assert(s@.take(i + 1) =~= s@.take(i as int).push(c));
            lemma_encoded_push(s@.take(i as int), c);
        }
        out.append(code.as_str());
        out.append(".");
        i = i + 1;
    }
    assert(s@.take(n as int) =~= s@);
    out
}

/// The characters of an optional string.
pub open spec fn opt_text(o: Option<String>) -> Option<Seq<char>> {
    match o {
        Some(s) => Some(s@),
        None => None,
    }
}

} // verus!
