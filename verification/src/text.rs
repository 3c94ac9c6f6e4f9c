//! Text as sequences of `char`: lines, trimming and whitespace-separated words,
//! as `str::lines`, `str::trim` and `str::split_whitespace` have them.
use vstd::prelude::*;

verus! {

/// Unicode White_Space, the property that `char::is_whitespace` tests.
pub open spec fn is_ws(c: char) -> bool {
    ||| 0x09 <= (c as u32) <= 0x0D
    ||| c as u32 == 0x20
    ||| c as u32 == 0x85
    ||| c as u32 == 0xA0
    ||| c as u32 == 0x1680
    ||| 0x2000 <= (c as u32) <= 0x200A
    ||| c as u32 == 0x2028
    ||| c as u32 == 0x2029
    ||| c as u32 == 0x202F
    ||| c as u32 == 0x205F
    ||| c as u32 == 0x3000
}

/// `char::is_whitespace`.
pub fn is_whitespace(c: char) -> (r: bool)
    ensures
        r == is_ws(c),
{
    let u = c as u32;
    (0x09 <= u && u <= 0x0D) || u == 0x20 || u == 0x85 || u == 0xA0 || u == 0x1680 || (0x2000 <= u
        && u <= 0x200A) || u == 0x2028 || u == 0x2029 || u == 0x202F || u == 0x205F || u == 0x3000
}

/// The pieces of `s` between occurrences of `sep`: one more than there are
/// separators, empty pieces included (as `str::split` gives them).
pub open spec fn split_on(s: Seq<char>, sep: char) -> Seq<Seq<char>>
    decreases s.len(),
{
    if s.len() == 0 {
        seq![Seq::empty()]
    } else {
        let p = split_on(s.drop_last(), sep);
        if s.last() == sep {
            p.push(Seq::empty())
        } else {
            p.update(p.len() - 1, p.last().push(s.last()))
        }
    }
}

/// The pieces of `s` between whitespace chars, empty pieces included.
pub open spec fn split_on_ws(s: Seq<char>) -> Seq<Seq<char>>
    decreases s.len(),
{
    if s.len() == 0 {
        seq![Seq::empty()]
    } else {
        let p = split_on_ws(s.drop_last());
        if is_ws(s.last()) {
            p.push(Seq::empty())
        } else {
            p.update(p.len() - 1, p.last().push(s.last()))
        }
    }
}

/// The non-empty members of `ps`, in order.
pub open spec fn non_empty(ps: Seq<Seq<char>>) -> Seq<Seq<char>>
    decreases ps.len(),
{
    if ps.len() == 0 {
        Seq::empty()
    } else if ps.last().len() == 0 {
        non_empty(ps.drop_last())
    } else {
        non_empty(ps.drop_last()).push(ps.last())
    }
}

/// `str::split_whitespace`: the maximal runs of non-whitespace chars.
pub open spec fn words(s: Seq<char>) -> Seq<Seq<char>> {
    non_empty(split_on_ws(s))
}

/// `str::lines` up to the `'\r'` that it strips before each `'\n'`: the
/// pieces between `'\n'`s, without the empty piece after a final `'\n'`
/// (and none at all for an empty text).
pub open spec fn text_lines(s: Seq<char>) -> Seq<Seq<char>> {
    let p = split_on(s, '\n');
    if p.last().len() == 0 { p.drop_last() } else { p }
}

/// `s` without its leading whitespace.
pub open spec fn trim_start(s: Seq<char>) -> Seq<char>
    decreases s.len(),
{
    if s.len() > 0 && is_ws(s[0]) { trim_start(s.drop_first()) } else { s }
}

/// `s` without its trailing whitespace.
pub open spec fn trim_end(s: Seq<char>) -> Seq<char>
    decreases s.len(),
{
    if s.len() > 0 && is_ws(s.last()) { trim_end(s.drop_last()) } else { s }
}

/// `str::trim`: `s` without leading and trailing whitespace.
pub open spec fn trim(s: Seq<char>) -> Seq<char> {
    trim_end(trim_start(s))
}

proof fn lemma_trim_start_drops_leading_ws(s: Seq<char>)
    ensures
        trim_start(s).len() <= s.len(),
        trim_start(s) == s.subrange(s.len() - trim_start(s).len(), s.len() as int),
        forall|i: int| 0 <= i < s.len() - trim_start(s).len() ==> is_ws(#[trigger] s[i]),
        trim_start(s).len() > 0 ==> !is_ws(trim_start(s)[0]),
    decreases s.len(),
{
    if s.len() > 0 && is_ws(s[0]) {
        let t = s.drop_first();
        lemma_trim_start_drops_leading_ws(t);
        assert(trim_start(s) == trim_start(t));
        assert(t.subrange(t.len() - trim_start(t).len(), t.len() as int) =~= s.subrange(
            s.len() - trim_start(s).len(),
            s.len() as int,
        ));
        assert forall|i: int| 0 <= i < s.len() - trim_start(s).len() implies is_ws(#[trigger] s[i]) by {
            if i > 0 {
                assert(s[i] == t[i - 1]);
            }
        }
    } else {
        assert(s.subrange(0, s.len() as int) =~= s);
    }
}

proof fn lemma_trim_end_drops_trailing_ws(s: Seq<char>)
    ensures
        trim_end(s).len() <= s.len(),
        trim_end(s) == s.subrange(0, trim_end(s).len() as int),
        forall|i: int| trim_end(s).len() <= i < s.len() ==> is_ws(#[trigger] s[i]),
        trim_end(s).len() > 0 ==> !is_ws(trim_end(s).last()),
    decreases s.len(),
{
    if s.len() > 0 && is_ws(s.last()) {
        let t = s.drop_last();
        lemma_trim_end_drops_trailing_ws(t);
        assert(trim_end(s) == trim_end(t));
        assert(t.subrange(0, trim_end(t).len() as int) =~= s.subrange(0, trim_end(s).len() as int));
        assert forall|i: int| trim_end(s).len() <= i < s.len() implies is_ws(#[trigger] s[i]) by {
            if i < s.len() - 1 {
                assert(s[i] == t[i]);
            }
        }
    } else {
        assert(s.subrange(0, s.len() as int) =~= s);
    }
}

/// `str::trim` keeps a contiguous part of the text and drops only whitespace
/// around it: the part starts at some `a`, everything before `a` and after the
/// part is whitespace, and the part neither starts nor ends with whitespace.
pub proof fn lemma_trim_keeps_the_middle(s: Seq<char>)
    ensures
        exists|a: int|
            #![trigger s.subrange(a, s.len() as int)]
            0 <= a && a + trim(s).len() <= s.len() && trim(s) == s.subrange(a, s.len() as int).subrange(
                0,
                trim(s).len() as int,
            ) && (forall|i: int| 0 <= i < a ==> is_ws(#[trigger] s[i]))
                && (forall|i: int| a + trim(s).len() <= i < s.len() ==> is_ws(#[trigger] s[i])),
        trim(s).len() > 0 ==> !is_ws(trim(s)[0]) && !is_ws(trim(s).last()),
{
    let u = trim_start(s);
    lemma_trim_start_drops_leading_ws(s);
    lemma_trim_end_drops_trailing_ws(u);
    let a = s.len() - u.len();
    let r = trim(s);
    assert(r == trim_end(u));
    assert(r =~= s.subrange(a, s.len() as int).subrange(0, r.len() as int));
    assert forall|i: int| a + r.len() <= i < s.len() implies is_ws(#[trigger] s[i]) by {
        assert(s[i] == u[i - a]);
    }
    if r.len() > 0 {
        assert(r[0] == u[0]);
    }
}

/// `s` begins with `prefix`.
pub open spec fn starts_with(s: Seq<char>, prefix: Seq<char>) -> bool {
    prefix.len() <= s.len() && s.subrange(0, prefix.len() as int) == prefix
}

pub proof fn lemma_split_on_len(s: Seq<char>, sep: char)
    ensures
        split_on(s, sep).len() >= 1,
    decreases s.len(),
{
    if s.len() > 0 {
        lemma_split_on_len(s.drop_last(), sep);
    }
}

pub proof fn lemma_split_on_ws_len(s: Seq<char>)
    ensures
        split_on_ws(s).len() >= 1,
    decreases s.len(),
{
    if s.len() > 0 {
        lemma_split_on_ws_len(s.drop_last());
    }
}

/// The chars `c[a..b]` trimmed: the range of `c[a..b]` that `str::trim` keeps.
pub fn trim_range(c: &Vec<char>, a: usize, b: usize) -> (r: (usize, usize))
    requires
        a <= b <= c@.len(),
    ensures
        a <= r.0 <= r.1 <= b,
        c@.subrange(r.0 as int, r.1 as int) == trim(c@.subrange(a as int, b as int)),
{
    let mut i = a;
    while i < b && is_whitespace(c[i])
        invariant
            a <= i <= b,
            b <= c@.len(),
            trim_start(c@.subrange(a as int, b as int)) == trim_start(c@.subrange(i as int, b as int)),
        decreases b - i,
    {
        assert(c@.subrange(i as int, b as int).drop_first() =~= c@.subrange(i + 1, b as int));
        i += 1;
    }
    let mut j = b;
    while j > i && is_whitespace(c[j - 1])
        invariant
            a <= i <= j <= b,
            b <= c@.len(),
            trim_end(c@.subrange(i as int, b as int)) == trim_end(c@.subrange(i as int, j as int)),
        decreases j - i,
    {
        assert(c@.subrange(i as int, j as int).drop_last() =~= c@.subrange(i as int, j - 1));
        j -= 1;
    }
    (i, j)
}

/// Whether `c[a..b]` begins with `prefix`.
pub fn starts_with_at(c: &Vec<char>, a: usize, b: usize, prefix: &[char]) -> (r: bool)
    requires
        a <= b <= c@.len(),
    ensures
        r == starts_with(c@.subrange(a as int, b as int), prefix@),
{
    if prefix.len() > b - a {
        return false;
    }
    let mut k: usize = 0;
    while k < prefix.len()
        invariant
            k <= prefix@.len(),
            prefix@.len() <= b - a,
            a <= b <= c@.len(),
            forall|m: int| 0 <= m < k ==> c@[a + m] == prefix@[m],
        decreases prefix@.len() - k,
    {
        if c[a + k] != prefix[k] {
            assert(c@.subrange(a as int, b as int).subrange(0, prefix@.len() as int)[k as int] != prefix@[k as int]);
            return false;
        }
        k += 1;
    }
    assert(c@.subrange(a as int, b as int).subrange(0, prefix@.len() as int) =~= prefix@);
    true
}

/// Whether `c[a..b]` is exactly `word`.
pub fn range_equals(c: &Vec<char>, a: usize, b: usize, word: &[char]) -> (r: bool)
    requires
        a <= b <= c@.len(),
    ensures
        r == (c@.subrange(a as int, b as int) == word@),
{
    if b - a != word.len() {
        return false;
    }
    let r = starts_with_at(c, a, b, word);
    proof {
        assert(c@.subrange(a as int, b as int).subrange(0, word@.len() as int) =~= c@.subrange(a as int, b as int));
    }
    r
}

/// The chars of `s` before its first `sep` (all of `s` if it has none): what
/// `s.split(sep).next()` gives.
pub open spec fn before_first(s: Seq<char>, sep: char) -> Seq<char>
    decreases s.len(),
{
    if s.len() == 0 || s[0] == sep {
        Seq::empty()
    } else {
        seq![s[0]] + before_first(s.drop_first(), sep)
    }
}

/// The part of `s` before its first `sep` is a prefix of `s` without `sep`,
/// and it ends where `s` does or where a `sep` follows.
pub proof fn lemma_before_first_is_prefix_up_to_sep(s: Seq<char>, sep: char)
    ensures
        before_first(s, sep).len() <= s.len(),
        before_first(s, sep) == s.subrange(0, before_first(s, sep).len() as int),
        forall|i: int| 0 <= i < before_first(s, sep).len() ==> #[trigger] before_first(s, sep)[i] != sep,
        before_first(s, sep).len() < s.len() ==> s[before_first(s, sep).len() as int] == sep,
    decreases s.len(),
{
    if s.len() > 0 && s[0] != sep {
        let t = s.drop_first();
        lemma_before_first_is_prefix_up_to_sep(t, sep);
        let r = before_first(s, sep);
        let q = before_first(t, sep);
        assert(r == seq![s[0]] + q);
        assert(r =~= s.subrange(0, r.len() as int)) by {
            assert forall|i: int| 0 <= i < r.len() implies r[i] == s[i] by {
                if i > 0 {
                    assert(r[i] == q[i - 1]);
                    assert(q[i - 1] == t.subrange(0, q.len() as int)[i - 1]);
                }
            }
        }
        assert forall|i: int| 0 <= i < r.len() implies #[trigger] r[i] != sep by {
            if i > 0 {
                assert(r[i] == q[i - 1]);
            }
        }
        if r.len() < s.len() {
            assert(s[r.len() as int] == t[q.len() as int]);
        }
    } else {
        assert(before_first(s, sep) =~= s.subrange(0, 0));
    }
}

/// The end of the range of `c[a..b]` before its first `sep`.
pub fn before_first_end(c: &Vec<char>, a: usize, b: usize, sep: char) -> (r: usize)
    requires
        a <= b <= c@.len(),
    ensures
        a <= r <= b,
        c@.subrange(a as int, r as int) == before_first(c@.subrange(a as int, b as int), sep),
{
    let mut i = a;
    while i < b && c[i] != sep
        invariant
            a <= i <= b,
            b <= c@.len(),
            before_first(c@.subrange(a as int, b as int), sep) == c@.subrange(a as int, i as int)
                + before_first(c@.subrange(i as int, b as int), sep),
        decreases b - i,
    {
        let ghost rest = c@.subrange(i as int, b as int);
        assert(rest.drop_first() =~= c@.subrange(i + 1, b as int));
        assert(c@.subrange(a as int, i + 1) =~= c@.subrange(a as int, i as int) + seq![c@[i as int]]);
        i += 1;
    }
    proof {
        assert(before_first(c@.subrange(i as int, b as int), sep) =~= Seq::<char>::empty());
        assert(c@.subrange(a as int, i as int) + Seq::<char>::empty() =~= c@.subrange(a as int, i as int));
    }
    i
}

/// The value of a run of ASCII decimal digits.
pub open spec fn decimal_value(d: Seq<char>) -> int
    decreases d.len(),
{
    if d.len() == 0 {
        0
    } else {
        10 * decimal_value(d.drop_last()) + (d.last() as u32 - 0x30)
    }
}

/// `c` is an ASCII decimal digit.
pub open spec fn is_digit(c: char) -> bool {
    0x30 <= (c as u32) <= 0x39
}

/// `s` without one leading `+`, if it has one.
pub open spec fn unsigned_digits(s: Seq<char>) -> Seq<char> {
    if s.len() > 0 && s[0] == '+' { s.drop_first() } else { s }
}

/// Every char of `d` is an ASCII decimal digit.
pub open spec fn all_digits(d: Seq<char>) -> bool {
    forall|i: int| 0 <= i < d.len() ==> is_digit(#[trigger] d[i])
}

/// `str::parse::<u32>`: an optional `+`, then one or more ASCII digits whose
/// value fits in a `u32`; anything else fails.
pub open spec fn parse_u32_spec(s: Seq<char>) -> Option<u32> {
    let d = unsigned_digits(s);
    if d.len() == 0 || !all_digits(d) {
        None
    } else if decimal_value(d) > u32::MAX {
        None
    } else {
        Some(decimal_value(d) as u32)
    }
}

proof fn lemma_decimal_value_nonneg(d: Seq<char>)
    requires
        all_digits(d),
    ensures
        decimal_value(d) >= 0,
    decreases d.len(),
{
    if d.len() > 0 {
        assert(is_digit(d[d.len() - 1]));
        assert(all_digits(d.drop_last())) by {
            assert forall|i: int| 0 <= i < d.drop_last().len() implies is_digit(#[trigger] d.drop_last()[i]) by {
                assert(is_digit(d[i]));
            }
        }
        lemma_decimal_value_nonneg(d.drop_last());
    }
}

/// `str::parse::<u32>` on ASCII digits reads them most significant first: no
/// digit gives nothing, one digit gives its value, and a further digit `x`
/// after digits worth `v` gives `10 * v + x` while that fits in a `u32` and
/// nothing once it does not.
pub proof fn lemma_parse_u32_reads_digits_in_order(s: Seq<char>, x: char)
    requires
        forall|i: int| 0 <= i < s.len() ==> 0x30 <= (#[trigger] s[i] as u32) <= 0x39,
        0x30 <= (x as u32) <= 0x39,
    ensures
        parse_u32_spec(Seq::<char>::empty()) is None,
        parse_u32_spec(seq![x]) == Some((x as u32 - 0x30) as u32),
        s.len() > 0 ==> match parse_u32_spec(s) {
            Some(v) => if 10 * v + (x as u32 - 0x30) <= u32::MAX {
                parse_u32_spec(s.push(x)) == Some((10 * v + (x as u32 - 0x30)) as u32)
            } else {
                parse_u32_spec(s.push(x)) is None
            },
            None => parse_u32_spec(s.push(x)) is None,
        },
{
    let e = Seq::<char>::empty();
    assert(unsigned_digits(e) =~= e);
    let one = seq![x];
    assert(unsigned_digits(one) =~= one);
    assert(one.drop_last() =~= e);
    assert(is_digit(one[0]));
    assert(all_digits(one));
    assert(decimal_value(e) == 0);
    assert(decimal_value(one.drop_last()) == 0);
    assert(decimal_value(one) == (x as u32 - 0x30));
    if s.len() > 0 {
        let t = s.push(x);
        assert(s[0] != '+');
        assert(t[0] == s[0]);
        assert(unsigned_digits(s) =~= s);
        assert(unsigned_digits(t) =~= t);
        assert(all_digits(s)) by {
            assert forall|i: int| 0 <= i < s.len() implies is_digit(#[trigger] s[i]) by {
                assert(0x30 <= (s[i] as u32) <= 0x39);
            }
        }
        assert(all_digits(t)) by {
            assert forall|i: int| 0 <= i < t.len() implies is_digit(#[trigger] t[i]) by {
                if i < s.len() {
                    assert(t[i] == s[i]);
                    assert(0x30 <= (s[i] as u32) <= 0x39);
                }
            }
        }
        assert(t.drop_last() =~= s);
        assert(decimal_value(t) == 10 * decimal_value(s) + (x as u32 - 0x30));
        lemma_decimal_value_nonneg(s);
    }
}

/// `str::parse::<u32>` fails on text with a char that is not an ASCII digit,
/// other than one leading `+`; and one leading `+` changes nothing.
pub proof fn lemma_parse_u32_rejects_non_digits(s: Seq<char>, i: int)
    ensures
        0 <= i < s.len() && !(0x30 <= (s[i] as u32) <= 0x39) && !(i == 0 && s[i] == '+') ==> parse_u32_spec(s) is None,
        !(s.len() > 0 && s[0] == '+') ==> parse_u32_spec(seq!['+'] + s) == parse_u32_spec(s),
{
    if 0 <= i < s.len() && !(0x30 <= (s[i] as u32) <= 0x39) && !(i == 0 && s[i] == '+') {
        let d = unsigned_digits(s);
        if s[0] == '+' {
            assert(d[i - 1] == s[i]);
            assert(!is_digit(d[i - 1]));
        } else {
            assert(d[i] == s[i]);
            assert(!is_digit(d[i]));
        }
    }
    let p = seq!['+'] + s;
    assert(p[0] == '+');
    assert(p.drop_first() =~= s);
    assert(unsigned_digits(p) =~= s);
    if !(s.len() > 0 && s[0] == '+') {
        assert(unsigned_digits(s) =~= s);
    }
}

/// Parses `c[a..b]` as a `u32`, as `str::parse::<u32>` does.
pub fn parse_u32_range(c: &Vec<char>, a: usize, b: usize) -> (r: Option<u32>)
    requires
        a <= b <= c@.len(),
    ensures
        r == parse_u32_spec(c@.subrange(a as int, b as int)),
{
    let ghost s = c@.subrange(a as int, b as int);
    let mut start = a;
    if a < b && c[a] == '+' {
        start = a + 1;
        assert(s.drop_first() =~= c@.subrange(start as int, b as int));
    }
    let ghost d = c@.subrange(start as int, b as int);
    assert(d == unsigned_digits(s));
    if start == b {
        return None;
    }
    let mut value: u64 = 0;
    let mut overflow = false;
    let mut i = start;
    proof {
        assert(c@.subrange(start as int, start as int) =~= Seq::<char>::empty());
    }
    while i < b
        invariant
            start <= i <= b,
            b <= c@.len(),
            d == c@.subrange(start as int, b as int),
            d == unsigned_digits(c@.subrange(a as int, b as int)),
            d.len() > 0,
            forall|k: int| start <= k < i ==> is_digit(#[trigger] c@[k]),
            !overflow ==> value == decimal_value(c@.subrange(start as int, i as int)),
            !overflow ==> value <= u32::MAX,
            overflow ==> decimal_value(c@.subrange(start as int, i as int)) > u32::MAX,
        decreases b - i,
    {
        let ch = c[i];
        let ghost pre = c@.subrange(start as int, i as int);
        assert(c@.subrange(start as int, i + 1).drop_last() =~= pre);
        let code = ch as u32;
        if !(0x30 <= code && code <= 0x39) {
            assert(d[i - start] == c@[i as int]);
            assert(!is_digit(d[i - start]));
            assert(0 <= i - start < d.len());
            return None;
        }
        let digit = (code - 0x30) as u64;
        if !overflow {
            value = value * 10 + digit;
            if value > 0xffff_ffff {
                overflow = true;
            }
        }
        i += 1;
    }
    proof {
        assert(c@.subrange(start as int, b as int) == d);
        assert forall|k: int| 0 <= k < d.len() implies is_digit(#[trigger] d[k]) by {
            assert(d[k] == c@[start + k]);
        }
    }
    if overflow {
        None
    } else {
        Some(value as u32)
    }
}

/// The ranges of the whitespace-separated words of `c[a..b]`.
pub fn word_ranges(c: &Vec<char>, a: usize, b: usize) -> (r: Vec<(usize, usize)>)
    requires
        a <= b <= c@.len(),
    ensures
        r@.len() == words(c@.subrange(a as int, b as int)).len(),
        forall|k: int| 0 <= k < r@.len() ==> a <= (#[trigger] r@[k]).0 <= r@[k].1 <= b,
        forall|k: int| 0 <= k < r@.len() ==> c@.subrange((#[trigger] r@[k]).0 as int, r@[k].1 as int)
            == words(c@.subrange(a as int, b as int))[k],
{
    let mut r: Vec<(usize, usize)> = Vec::new();
    let mut start = a;
    let mut i = a;
    proof {
        assert(c@.subrange(a as int, a as int) =~= Seq::<char>::empty());
    }
    while i < b
        invariant
            a <= start <= i <= b,
            b <= c@.len(),
            split_on_ws(c@.subrange(a as int, i as int)).last() == c@.subrange(start as int, i as int),
            r@.len() == non_empty(split_on_ws(c@.subrange(a as int, i as int)).drop_last()).len(),
            forall|k: int| 0 <= k < r@.len() ==> a <= (#[trigger] r@[k]).0 <= r@[k].1 <= b,
            forall|k: int| 0 <= k < r@.len() ==> c@.subrange((#[trigger] r@[k]).0 as int, r@[k].1 as int)
                == non_empty(split_on_ws(c@.subrange(a as int, i as int)).drop_last())[k],
        decreases b - i,
    {
        let ghost s0 = c@.subrange(a as int, i as int);
        let ghost s1 = c@.subrange(a as int, i + 1);
        proof {
            assert(s1.drop_last() =~= s0);
            assert(s1.last() == c@[i as int]);
            lemma_split_on_ws_len(s0);
        }
        let ghost p0 = split_on_ws(s0);
        if is_whitespace(c[i]) {
            assert(split_on_ws(s1) == p0.push(Seq::empty()));
            assert(split_on_ws(s1).drop_last() =~= p0);
            assert(p0 =~= p0.drop_last().push(p0.last()));
            if start < i {
                r.push((start, i));
            }
            start = i + 1;
            assert(split_on_ws(s1).last() =~= c@.subrange(start as int, i + 1));
        } else {
            assert(split_on_ws(s1) == p0.update(p0.len() - 1, p0.last().push(c@[i as int])));
            assert(split_on_ws(s1).drop_last() =~= p0.drop_last());
            assert(split_on_ws(s1).last() =~= c@.subrange(start as int, i + 1));
        }
        i += 1;
    }
    let ghost s = c@.subrange(a as int, b as int);
    proof {
        lemma_split_on_ws_len(s);
        assert(split_on_ws(s) =~= split_on_ws(s).drop_last().push(split_on_ws(s).last()));
    }
    if start < b {
        r.push((start, b));
    }
    r
}

/// What `std::str::from_utf8` reports of bytes that are not UTF-8 (its error's
/// text), a function of those bytes.
pub uninterp spec fn utf8_error_text(bytes: Seq<u8>) -> Seq<char>;

/// `std::str::from_utf8`: the text that UTF-8 bytes encode, or the error's text.
/// Claimed: it succeeds exactly on valid UTF-8 (vstd's `valid_utf8`), decodes
/// as vstd's `decode_utf8` does, and its error text depends on the bytes alone.
#[verifier::external_body]
pub(crate) fn str_from_utf8(v: &[u8]) -> (r: Result<&str, String>)
    ensures
        r is Ok <==> vstd::utf8::valid_utf8(v@),
        r matches Ok(s) ==> s@ == vstd::utf8::decode_utf8(v@),
        r matches Err(m) ==> m@ == utf8_error_text(v@),
{
    match std::str::from_utf8(v) {
        Ok(s) => Ok(s),
        Err(e) => Err(format!("{}", e)),
    }
}

/// The chars of `s`, in order.
pub fn str_to_chars(s: &str) -> (r: Vec<char>)
    ensures
        r@ == s@,
{
    let mut r: Vec<char> = Vec::new();
    for c in it: s.chars()
        invariant
            r@ == it.seq().take(it.index() as int),
    {
        r.push(c);
    }
    r
}

/// The decimal digits of `n`, most significant first, as `u64`'s `Display` writes them.
pub open spec fn decimal_text(n: nat) -> Seq<char>
    decreases n,
{
    if n < 10 {
        seq![(48 + n) as char]
    } else {
        decimal_text(n / 10).push((48 + n % 10) as char)
    }
}

/// The decimal text of `n`, with `-` before negative values, as `i32`'s
/// `Display` writes it.
pub open spec fn signed_decimal_text(n: int) -> Seq<char> {
    if n < 0 { seq!['-'] + decimal_text((-n) as nat) } else { decimal_text(n as nat) }
}

/// The decimal text of `n`.
pub fn u64_to_decimal(n: u64) -> (r: String)
    ensures
        r@ == decimal_text(n as nat),
{
    let mut digits: Vec<char> = Vec::new();
    let mut m = n;
    proof {
        assert(decimal_text(n as nat) =~= decimal_text(m as nat) + digits@.reverse());
    }
    loop
        invariant_except_break
            decimal_text(n as nat) == decimal_text(m as nat) + digits@.reverse(),
        ensures
            decimal_text(n as nat) == digits@.reverse(),
        decreases m,
    {
        let d = m % 10;
        let ch = char_of_digit(d);
        let ghost before = digits@;
        digits.push(ch);
        proof {
            assert(digits@.reverse() =~= seq![ch] + before.reverse());
        }
        if m < 10 {
            assert(decimal_text(m as nat) == seq![ch]);
            assert(decimal_text(n as nat) =~= digits@.reverse());
            break;
        }
        assert(decimal_text(m as nat) == decimal_text((m / 10) as nat).push(ch));
        assert(decimal_text(n as nat) =~= decimal_text((m / 10) as nat) + digits@.reverse());
        m = m / 10;
    }
    let mut r = String::new();
    let mut k = digits.len();
    while k > 0
        invariant
            k <= digits@.len(),
            r@ == digits@.reverse().subrange(0, (digits@.len() - k) as int),
        decreases k,
    {
        k -= 1;
        push_char(&mut r, digits[k]);
        assert(r@ =~= digits@.reverse().subrange(0, (digits@.len() - k) as int));
    }
    assert(digits@.reverse().subrange(0, digits@.len() as int) =~= digits@.reverse());
    r
}

fn char_of_digit(d: u64) -> (c: char)
    requires
        d < 10,
    ensures
        c == (48 + d) as char,
{
    if d == 0 { '0' } else if d == 1 { '1' } else if d == 2 { '2' } else if d == 3 { '3' } else if d == 4 {
        '4'
    } else if d == 5 { '5' } else if d == 6 { '6' } else if d == 7 { '7' } else if d == 8 { '8' } else { '9' }
}

/// `String::push`. Claimed: the char is appended.
#[verifier::external_body]
pub(crate) fn push_char(s: &mut String, c: char)
    ensures
        final(s)@ == old(s)@.push(c),
{
    s.push(c)
}

/// The decimal text of `n`, with `-` before negative values.
pub fn i32_to_decimal(n: i32) -> (r: String)
    ensures
        r@ == signed_decimal_text(n as int),
{
    if n < 0 {
        let mut r = String::new();
        push_char(&mut r, '-');
        let digits = u64_to_decimal((-(n as i64)) as u64);
        r.append(digits.as_str());
        r
    } else {
        u64_to_decimal(n as u64)
    }
}

} // verus!
