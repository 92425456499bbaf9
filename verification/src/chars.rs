use vstd::prelude::*;

use vstd::string::StrSliceExecFns;

verus! {

/// The whitespace characters this library recognizes in text input.
pub open spec fn is_space_char(c: char) -> bool {
    c == ' ' || c == '\t' || c == '\r' || c == '\n'
}

pub fn is_space(c: char) -> (r: bool)
    ensures
        r == is_space_char(c),
{
    c == ' ' || c == '\t' || c == '\r' || c == '\n'
}

pub open spec fn is_digit_char(c: char) -> bool {
    48 <= c as int <= 57
}

pub open spec fn digit_val(c: char) -> int {
    c as int - 48
}

/// The number denoted by a run of decimal digits, most significant first.
pub open spec fn int_of_digits(s: Seq<char>) -> int
    decreases s.len(),
{
    if s.len() == 0 {
        0
    } else {
        int_of_digits(s.drop_last()) * 10 + digit_val(s.last())
    }
}

pub open spec fn all_digits(s: Seq<char>) -> bool {
    s.len() > 0 && forall|i: int| 0 <= i < s.len() ==> is_digit_char(#[trigger] s[i])
}

/// Text that denotes an integer: an optional minus or plus sign
/// followed by at least one decimal digit.
pub open spec fn valid_int_text(s: Seq<char>) -> bool {
    if s.len() > 0 && (s[0] == '-' || s[0] == '+') {
        all_digits(s.skip(1))
    } else {
        all_digits(s)
    }
}

/// The value denoted by `s`, meaningful when `valid_int_text(s)`.
pub open spec fn int_text_value(s: Seq<char>) -> int {
    if s.len() > 0 && s[0] == '-' {
        -int_of_digits(s.skip(1))
    } else if s.len() > 0 && s[0] == '+' {
        int_of_digits(s.skip(1))
    } else {
        int_of_digits(s)
    }
}

/// A run of digits denotes a value at least zero.
pub proof fn lemma_digits_nonneg(s: Seq<char>)
    requires
        forall|i: int| 0 <= i < s.len() ==> is_digit_char(#[trigger] s[i]),
    ensures
        int_of_digits(s) >= 0,
    decreases s.len(),
{
    if s.len() > 0 {
        lemma_digits_nonneg(s.drop_last());
    }
}

/// Extending a digit run on the right never shrinks its value.
pub proof fn lemma_digits_extend(a: Seq<char>, b: Seq<char>)
    requires
        forall|i: int| 0 <= i < a.len() ==> is_digit_char(#[trigger] a[i]),
        forall|i: int| 0 <= i < b.len() ==> is_digit_char(#[trigger] b[i]),
    ensures
        int_of_digits(a + b) >= int_of_digits(a),
    decreases b.len(),
{
    if b.len() == 0 {
        assert(a + b =~= a);
    } else {
        lemma_digits_extend(a, b.drop_last());
        assert((a + b).drop_last() =~= a + b.drop_last());
        lemma_digits_nonneg(a);
        lemma_digits_nonneg(a + b.drop_last());
        assert(int_of_digits(a + b) == int_of_digits(a + b.drop_last()) * 10 + digit_val(
            (a + b).last(),
        ));
    }
}

/// Whether two string slices hold the same characters.
pub fn str_eq(a: &str, b: &str) -> (r: bool)
    ensures
        r == (a@ == b@),
{
    let n = a.unicode_len();
    if n != b.unicode_len() {
        return false;
    }
    let mut i: usize = 0;
    while i < n
        invariant
            a@.len() == n,
            b@.len() == n,
            i <= n,
            forall|j: int| 0 <= j < i ==> a@[j] == b@[j],
        decreases n - i,
    {
        if a.get_char(i) != b.get_char(i) {
            return false;
        }
        i = i + 1;
    }
    assert(a@ =~= b@);
    true
}

/// The characters of `s`, in order.
pub fn str_chars(s: &str) -> (r: Vec<char>)
    ensures
        r@ == s@,
{
    let n = s.unicode_len();
    let mut r: Vec<char> = Vec::new();
    let mut i: usize = 0;
    while i < n
        invariant
            s@.len() == n,
            i <= n,
            r@ == s@.take(i as int),
        decreases n - i,
    {
        r.push(s.get_char(i));
        assert(r@ =~= s@.take(i as int + 1));
        i = i + 1;
    }
    assert(r@ =~= s@);
    r
}

/// The index of the first occurrence of `c`, or the length when absent.
pub open spec fn first_at(t: Seq<char>, c: char) -> nat
    decreases t.len(),
{
    if t.len() == 0 {
        0
    } else if t[0] == c {
        0
    } else {
        1 + first_at(t.drop_first(), c)
    }
}

pub proof fn lemma_first_at(t: Seq<char>, c: char)
    ensures
        first_at(t, c) <= t.len(),
        forall|j: int| 0 <= j < first_at(t, c) ==> t[j] != c,
        first_at(t, c) < t.len() ==> t[first_at(t, c) as int] == c,
    decreases t.len(),
{
    if t.len() > 0 && t[0] != c {
        lemma_first_at(t.drop_first(), c);
        let d = t.drop_first();
        assert forall|j: int| 0 <= j < first_at(t, c) implies t[j] != c by {
            if j > 0 {
                assert(t[j] == d[j - 1]);
            }
        }
        if first_at(t, c) < t.len() {
            assert(t[first_at(t, c) as int] == d[first_at(d, c) as int]);
        }
    }
}

/// How many whitespace characters `t` starts with.
pub open spec fn lead_spaces(t: Seq<char>) -> nat
    decreases t.len(),
{
    if t.len() == 0 {
        0
    } else if is_space_char(t[0]) {
        1 + lead_spaces(t.drop_first())
    } else {
        0
    }
}

pub proof fn lemma_lead_spaces(t: Seq<char>)
    ensures
        lead_spaces(t) <= t.len(),
        forall|j: int| 0 <= j < lead_spaces(t) ==> is_space_char(#[trigger] t[j]),
        lead_spaces(t) < t.len() ==> !is_space_char(t[lead_spaces(t) as int]),
    decreases t.len(),
{
    if t.len() > 0 && is_space_char(t[0]) {
        lemma_lead_spaces(t.drop_first());
        let d = t.drop_first();
        assert forall|j: int| 0 <= j < lead_spaces(t) implies is_space_char(#[trigger] t[j]) by {
            if j > 0 {
                assert(t[j] == d[j - 1]);
            }
        }
        if lead_spaces(t) < t.len() {
            assert(t[lead_spaces(t) as int] == d[lead_spaces(d) as int]);
        }
    }
}

/// How many whitespace characters `t` ends with.
pub open spec fn trail_spaces(t: Seq<char>) -> nat
    decreases t.len(),
{
    if t.len() == 0 {
        0
    } else if is_space_char(t.last()) {
        1 + trail_spaces(t.drop_last())
    } else {
        0
    }
}

pub proof fn lemma_trail_spaces(t: Seq<char>)
    ensures
        trail_spaces(t) <= t.len(),
        forall|j: int| t.len() - trail_spaces(t) <= j < t.len() ==> is_space_char(#[trigger] t[j]),
        trail_spaces(t) < t.len() ==> !is_space_char(t[t.len() - trail_spaces(t) - 1]),
    decreases t.len(),
{
    if t.len() > 0 && is_space_char(t.last()) {
        lemma_trail_spaces(t.drop_last());
        let d = t.drop_last();
        assert(forall|j: int| 0 <= j < d.len() ==> d[j] == t[j]);
    }
}

/// `t` without leading and trailing whitespace.
pub open spec fn trim_spec(t: Seq<char>) -> Seq<char> {
    if lead_spaces(t) == t.len() {
        Seq::empty()
    } else {
        t.subrange(lead_spaces(t) as int, t.len() - trail_spaces(t))
    }
}

/// The bounds of the non-whitespace middle of `v[from..to]`, as indexes
/// into `v`.
pub fn trim_range(v: &Vec<char>, from: usize, to: usize) -> (r: (usize, usize))
    requires
        from <= to <= v@.len(),
    ensures
        from <= r.0 <= r.1 <= to,
        v@.subrange(r.0 as int, r.1 as int) == trim_spec(v@.subrange(from as int, to as int)),
{
    let ghost t = v@.subrange(from as int, to as int);
    proof {
        lemma_lead_spaces(t);
        lemma_trail_spaces(t);
    }
    let mut a: usize = from;
    while a < to && is_space(v[a])
        invariant
            from <= a <= to,
            to <= v@.len(),
            t == v@.subrange(from as int, to as int),
            a - from <= lead_spaces(t),
            forall|j: int| 0 <= j < a - from ==> is_space_char(#[trigger] t[j]),
        decreases to - a,
    {
        proof {
            lemma_lead_spaces(t);
            assert(t[a - from] == v@[a as int]);
            if lead_spaces(t) == a - from {
                assert(!is_space_char(t[a - from]));
            }
        }
        a = a + 1;
    }
    proof {
        lemma_lead_spaces(t);
        if a < to {
            assert(t[a - from] == v@[a as int]);
            assert(!is_space_char(t[a - from]));
            assert(lead_spaces(t) == a - from);
        } else {
            assert(forall|j: int| 0 <= j < t.len() ==> is_space_char(#[trigger] t[j]));
            assert(lead_spaces(t) == t.len());
        }
    }
    if a == to {
        proof {
            assert(trim_spec(t) =~= v@.subrange(a as int, a as int));
        }
        return (a, a);
    }
    let mut b: usize = to;
    while b > a && is_space(v[b - 1])
        invariant
            a <= b <= to,
            a < to,
            to <= v@.len(),
            t == v@.subrange(from as int, to as int),
            from <= a,
            lead_spaces(t) == a - from,
            to - b <= trail_spaces(t),
            forall|j: int| b - from <= j < t.len() ==> is_space_char(#[trigger] t[j]),
        decreases b,
    {
        proof {
            lemma_trail_spaces(t);
            assert(t[b - 1 - from] == v@[b - 1]);
            if trail_spaces(t) == to - b {
                assert(!is_space_char(t[t.len() - trail_spaces(t) - 1]));
            }
        }
        b = b - 1;
    }
    proof {
        lemma_trail_spaces(t);
        lemma_lead_spaces(t);
        if b > a {
            assert(t[b - 1 - from] == v@[b - 1]);
            assert(!is_space_char(t[b - 1 - from]));
            assert(trail_spaces(t) == to - b);
        } else {
            assert(b == a);
            assert(!is_space_char(t[a - from]));
            assert(trail_spaces(t) >= to - a ==> is_space_char(t[a - from]));
            assert(trail_spaces(t) < to - a);
        }
        assert(v@.subrange(a as int, b as int) =~= trim_spec(t));
    }
    (a, b)
}

/// Read a decimal integer from `v[from..to]`: exactly an optional
/// leading minus or plus sign followed by one or more digits, denoting
/// a value that fits `i64`.
pub fn parse_i64_range(v: &Vec<char>, from: usize, to: usize) -> (r: Option<i64>)
    requires
        from <= to <= v@.len(),
    ensures
        ({
            let t = v@.subrange(from as int, to as int);
            &&& (r is Some <==> valid_int_text(t) && i64::MIN <= int_text_value(t) <= i64::MAX)
            &&& (r is Some ==> r->0 == int_text_value(t))
        }),
{
    let ghost t = v@.subrange(from as int, to as int);
    let n: usize = to - from;
    if n == 0 {
        return None;
    }
    let neg = v[from] == '-';
    let signed = neg || v[from] == '+';
    let start: usize = if signed {
        1
    } else {
        0
    };
    if start == n {
        return None;
    }
    let ghost digits = t.skip(start as int);
    let mut i: usize = start;
    let mut acc: u64 = 0;
    while i < n
        invariant
            t == v@.subrange(from as int, to as int),
            n == to - from,
            from <= to <= v@.len(),
            t.len() == n,
            start <= i <= n,
            start < n,
            signed ==> start == 1,
            !signed ==> start == 0,
            neg ==> signed,
            neg ==> t[0] == '-',
            signed && !neg ==> t[0] == '+',
            !signed ==> t[0] != '-' && t[0] != '+',
            digits == t.skip(start as int),
            forall|j: int| start <= j < i ==> is_digit_char(#[trigger] t[j]),
            acc == int_of_digits(t.subrange(start as int, i as int)),
        decreases n - i,
    {
        let c = v[from + i];
        proof {
            assert(t[i as int] == v@[from + i]);
        }
        if c < '0' || c > '9' {
            proof {
                assert(!is_digit_char(t[i as int]));
                assert(digits[i as int - start as int] == t[i as int]);
                assert(!all_digits(digits));
                if !signed {
                    assert(digits =~= t);
                }
                assert(!valid_int_text(t));
            }
            return None;
        }
        proof {
            assert(is_digit_char(c));
        }
        let cu = c as u32;
        proof {
            assert(48 <= cu <= 57);
        }
        let d = (cu - 48) as u64;
        let ghost pre = t.subrange(start as int, i as int);
        let ghost ext = t.subrange(start as int, i as int + 1);
        proof {
            assert(c == t[i as int]);
            assert(is_digit_char(t[i as int]));
            assert(digit_val(t[i as int]) == d as int);
            assert(ext.drop_last() =~= pre);
            assert(ext.last() == t[i as int]);
        }
        if acc > (u64::MAX - d) / 10 {
            proof {
                assert(acc * 10 + d > u64::MAX) by (nonlinear_arith)
                    requires
                        acc > (u64::MAX - d) / 10,
                        d <= 9,
                ;
                assert(int_of_digits(ext) == acc * 10 + d);
                assert(int_of_digits(ext) > u64::MAX);
                if valid_int_text(t) {
                    assert(all_digits(digits));
                    let tail = t.subrange(i as int + 1, n as int);
                    assert forall|j: int| 0 <= j < tail.len() implies is_digit_char(
                        #[trigger] tail[j],
                    ) by {
                        assert(tail[j] == t[i as int + 1 + j]);
                        assert(digits[i as int + 1 + j - start as int] == t[i as int + 1 + j]);
                    }
                    assert(digits =~= ext + tail);
                    lemma_digits_extend(ext, tail);
                    assert(int_of_digits(digits) > u64::MAX);
                    if neg {
                        assert(int_text_value(t) == -int_of_digits(digits));
                    } else if signed {
                        assert(int_text_value(t) == int_of_digits(digits));
                    } else {
                        assert(digits =~= t);
                        assert(int_text_value(t) == int_of_digits(digits));
                    }
                    assert(int_text_value(t) > i64::MAX || int_text_value(t) < i64::MIN);
                }
            }
            return None;
        }
        acc = acc * 10 + d;
        i = i + 1;
    }
    proof {
        assert(t.subrange(start as int, n as int) =~= digits);
        assert(all_digits(digits));
        if neg {
            assert(int_text_value(t) == -int_of_digits(digits));
        } else if signed {
            assert(int_text_value(t) == int_of_digits(digits));
        } else {
            assert(digits =~= t);
            assert(int_text_value(t) == int_of_digits(digits));
        }
        assert(valid_int_text(t));
        lemma_digits_nonneg(digits);
    }
    if neg {
        if acc > 9223372036854775808u64 {
            return None;
        }
        if acc == 9223372036854775808u64 {
            return Some(i64::MIN);
        }
        Some(-(acc as i64))
    } else {
        if acc > 9223372036854775807u64 {
            return None;
        }
        Some(acc as i64)
    }
}

} // verus!
