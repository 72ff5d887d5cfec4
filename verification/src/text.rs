//! Character and string helpers used throughout the library.

use vstd::prelude::*;
use vstd::string::StringExecFns;
use vstd::string::StrSliceExecFns;

verus! {

/// Whether `c` is Unicode alphabetic or numeric, as `char::is_alphanumeric` decides.
pub uninterp spec fn spec_is_alphanumeric(c: char) -> bool;

/// Whether `c` has the Unicode `White_Space` property, as `char::is_whitespace`
/// decides: tab to carriage return, space, next line, no-break space, ogham
/// space mark, en quad to hair space, the line and paragraph separators,
/// narrow no-break space, medium mathematical space and ideographic space.
pub open spec fn spec_is_whitespace(c: char) -> bool {
    let u = c as u32;
    (0x9 <= u && u <= 0xd) || u == 0x20 || u == 0x85 || u == 0xa0 || u == 0x1680 || (0x2000 <= u && u
        <= 0x200a) || u == 0x2028 || u == 0x2029 || u == 0x202f || u == 0x205f || u == 0x3000
}

/// The Unicode upper-case mapping of a string, as `str::to_uppercase` computes it.
pub uninterp spec fn spec_to_uppercase(s: Seq<char>) -> Seq<char>;

pub open spec fn is_ascii_lower(c: char) -> bool {
    'a' <= c && c <= 'z'
}

pub open spec fn is_ascii_alpha(c: char) -> bool {
    ('a' <= c && c <= 'z') || ('A' <= c && c <= 'Z')
}

pub open spec fn is_ascii_digit(c: char) -> bool {
    '0' <= c && c <= '9'
}

pub open spec fn is_ascii_hexdigit(c: char) -> bool {
    is_ascii_digit(c) || ('a' <= c && c <= 'f') || ('A' <= c && c <= 'F')
}

pub open spec fn is_ascii_char(c: char) -> bool {
    (c as u32) < 128
}

/// ASCII upper-casing of one character; every other character is kept.
pub open spec fn ascii_upper_char(c: char) -> char {
    if is_ascii_lower(c) {
        ((c as u32) - 32) as char
    } else {
        c
    }
}

pub open spec fn spec_ascii_upper(s: Seq<char>) -> Seq<char> {
    s.map_values(|c: char| ascii_upper_char(c))
}

pub open spec fn all_ascii(s: Seq<char>) -> bool {
    forall|i: int| 0 <= i < s.len() ==> is_ascii_char(#[trigger] s[i])
}

/// Leading whitespace removed.
pub open spec fn spec_trim_start(s: Seq<char>) -> Seq<char>
    decreases s.len(),
{
    if s.len() > 0 && spec_is_whitespace(s[0]) {
        spec_trim_start(s.drop_first())
    } else {
        s
    }
}

/// Trailing whitespace removed.
pub open spec fn spec_trim_end(s: Seq<char>) -> Seq<char>
    decreases s.len(),
{
    if s.len() > 0 && spec_is_whitespace(s.last()) {
        spec_trim_end(s.drop_last())
    } else {
        s
    }
}

/// Leading and trailing whitespace removed, as `str::trim` does.
pub open spec fn spec_trim(s: Seq<char>) -> Seq<char> {
    spec_trim_end(spec_trim_start(s))
}

/// Decimal digits of a natural number, most significant first.
pub open spec fn spec_decimal(n: nat) -> Seq<char>
    decreases n,
{
    if n < 10 {
        seq![digit_char(n)]
    } else {
        spec_decimal(n / 10).push(digit_char(n % 10))
    }
}

pub open spec fn digit_char(d: nat) -> char {
    (('0' as u32) + d) as char
}

pub open spec fn all_digits(s: Seq<char>) -> bool {
    forall|i: int| 0 <= i < s.len() ==> is_ascii_digit(#[trigger] s[i])
}

/// Value of a string of decimal digits.
pub open spec fn digits_value(s: Seq<char>) -> nat
    decreases s.len(),
{
    if s.len() == 0 {
        0
    } else {
        10 * digits_value(s.drop_last()) + ((s.last() as u32) - ('0' as u32)) as nat
    }
}

/// What `str::parse` gives for an unsigned integer type whose largest value is
/// `max`: an optional `+`, then at least one decimal digit, and a value that fits.
pub open spec fn spec_parse_uint(s: Seq<char>, max: nat) -> Option<nat> {
    let digits = if s.len() > 0 && s[0] == '+' { s.drop_first() } else { s };
    if digits.len() == 0 || !all_digits(digits) || digits_value(digits) > max {
        None
    } else {
        Some(digits_value(digits))
    }
}

/// `c.is_alphanumeric()`. Among ASCII characters exactly the letters and
/// digits are alphanumeric; for other characters only the name is given.
#[verifier::external_body]
pub(crate) fn char_is_alphanumeric(c: char) -> (r: bool)
    ensures
        r == spec_is_alphanumeric(c),
        is_ascii_char(c) ==> (r <==> (is_ascii_alpha(c) || is_ascii_digit(c))),
{
    c.is_alphanumeric()
}

/// Whether `c` is whitespace, as `char::is_whitespace` decides.
pub(crate) fn char_is_whitespace(c: char) -> (r: bool)
    ensures
        r == spec_is_whitespace(c),
{
    let u = c as u32;
    (0x9 <= u && u <= 0xd) || u == 0x20 || u == 0x85 || u == 0xa0 || u == 0x1680 || (0x2000 <= u && u
        <= 0x200a) || u == 0x2028 || u == 0x2029 || u == 0x202f || u == 0x205f || u == 0x3000
}

/// `s.to_uppercase()`: the Unicode upper-case mapping. Its documentation maps each
/// ASCII character to its ASCII upper case, which the second clause states; for
/// other text only the name is given.
#[verifier::external_body]
pub(crate) fn to_uppercase(s: &str) -> (r: String)
    ensures
        r@ == spec_to_uppercase(s@),
        all_ascii(s@) ==> r@ == spec_ascii_upper(s@),
{
    s.to_uppercase()
}

/// `String::push`: appends one character.
#[verifier::external_body]
pub(crate) fn push_char(s: &mut String, c: char)
    ensures
        final(s)@ == old(s)@.push(c),
{
    s.push(c)
}

/// The slice without leading and trailing whitespace, whitespace as
/// `char::is_whitespace` decides it: what `str::trim` gives.
pub(crate) fn trim_str<'a>(s: &'a str) -> (r: &'a str)
    ensures
        r@ == spec_trim(s@),
{
    let v = str_chars(s);
    let n = v.len();
    let mut start: usize = 0;
    assert(v@.skip(0) =~= v@);
    while start < n && char_is_whitespace(v[start])
        invariant
            0 <= start <= n == v@.len(),
            spec_trim_start(v@) == spec_trim_start(v@.skip(start as int)),
        decreases n - start,
    {
        assert(v@.skip(start as int).drop_first() =~= v@.skip(start + 1));
        start = start + 1;
    }
    let mut end: usize = n;
    assert(v@.skip(start as int) =~= v@.subrange(start as int, n as int));
    while end > start && char_is_whitespace(v[end - 1])
        invariant
            start <= end <= n == v@.len(),
            spec_trim(v@) == spec_trim_end(v@.subrange(start as int, end as int)),
        decreases end,
    {
        assert(v@.subrange(start as int, end as int).drop_last() =~= v@.subrange(start as int, end - 1));
        end = end - 1;
    }
    s.substring_char(start, end)
}

/// Append a string slice.
pub(crate) fn push_str(s: &mut String, t: &str)
    ensures
        final(s)@ == old(s)@ + t@,
{
    s.append(t);
}

/// Collect the characters of a string slice into a vector.
pub fn str_chars(s: &str) -> (r: Vec<char>)
    ensures
        r@ == s@,
{
    let mut v: Vec<char> = Vec::new();
    for c in it: s.chars()
        invariant
            v@ == it.seq().take(it.index()),
    {
        v.push(c);
    }
    v
}

/// An owned copy of a string slice.
pub fn owned(s: &str) -> (r: String)
    ensures
        r@ == s@,
{
    s.to_owned()
}

/// Append characters `v[from..to]` to `out`.
pub fn push_chars(out: &mut String, v: &[char], from: usize, to: usize)
    requires
        from <= to <= v@.len(),
    ensures
        final(out)@ == old(out)@ + v@.subrange(from as int, to as int),
{
    let mut i = from;
    while i < to
        invariant
            from <= i <= to <= v@.len(),
            out@ == old(out)@ + v@.subrange(from as int, i as int),
        decreases to - i,
    {
        push_char(out, v[i]);
        i = i + 1;
        assert(out@ =~= old(out)@ + v@.subrange(from as int, i as int));
    }
}

/// A string made of characters `v[from..to]`.
pub fn string_from_range(v: &[char], from: usize, to: usize) -> (r: String)
    requires
        from <= to <= v@.len(),
    ensures
        r@ == v@.subrange(from as int, to as int),
{
    let mut s = String::new();
    push_chars(&mut s, v, from, to);
    assert(s@ =~= v@.subrange(from as int, to as int));
    s
}

/// A string made of all the characters of `v`.
pub fn string_from_chars(v: &[char]) -> (r: String)
    ensures
        r@ == v@,
{
    let r = string_from_range(v, 0, v.len());
    assert(v@.subrange(0, v@.len() as int) =~= v@);
    r
}

/// The characters of each string of a list.
pub open spec fn strings_view(v: Seq<String>) -> Seq<Seq<char>> {
    v.map_values(|s: String| s@)
}

/// The characters of each string slice of a list.
pub open spec fn strs_view(v: Seq<&str>) -> Seq<Seq<char>> {
    v.map_values(|s: &str| s@)
}

/// Items joined with a separator between each two.
pub open spec fn spec_join(items: Seq<Seq<char>>, sep: Seq<char>) -> Seq<char>
    decreases items.len(),
{
    if items.len() == 0 {
        Seq::empty()
    } else if items.len() == 1 {
        items[0]
    } else {
        spec_join(items.drop_last(), sep) + sep + items.last()
    }
}

proof fn lemma_join_push(items: Seq<Seq<char>>, sep: Seq<char>, x: Seq<char>)
    ensures
        spec_join(items.push(x), sep) == if items.len() == 0 {
            x
        } else {
            spec_join(items, sep) + sep + x
        },
{
    assert(items.push(x).drop_last() =~= items);
}

/// `items[from..to].join(sep)`.
pub fn join_range(items: &[String], from: usize, to: usize, sep: &str) -> (r: String)
    requires
        from <= to <= items@.len(),
    ensures
        r@ == spec_join(strings_view(items@).subrange(from as int, to as int), sep@),
{
    let mut out = String::new();
    let mut i = from;
    assert(strings_view(items@).subrange(from as int, from as int) =~= Seq::<Seq<char>>::empty());
    while i < to
        invariant
            from <= i <= to <= items@.len(),
            out@ == spec_join(strings_view(items@).subrange(from as int, i as int), sep@),
        decreases to - i,
    {
        let ghost prev = strings_view(items@).subrange(from as int, i as int);
        proof {
            assert(strings_view(items@).subrange(from as int, i + 1) =~= prev.push(items@[i as int]@));
            lemma_join_push(prev, sep@, items@[i as int]@);
        }
        if i > from {
            push_str(&mut out, sep);
        }
        push_str(&mut out, items[i].as_str());
        i = i + 1;
        assert(out@ =~= spec_join(strings_view(items@).subrange(from as int, i as int), sep@));
    }
    out
}

/// `items.join(sep)`.
pub fn join(items: &[String], sep: &str) -> (r: String)
    ensures
        r@ == spec_join(strings_view(items@), sep@),
{
    let r = join_range(items, 0, items.len(), sep);
    assert(strings_view(items@).subrange(0, items@.len() as int) =~= strings_view(items@));
    r
}

/// `items.join(sep)` for string slices.
pub fn join_strs(items: &[&str], sep: &str) -> (r: String)
    ensures
        r@ == spec_join(strs_view(items@), sep@),
{
    let mut out = String::new();
    let n = items.len();
    let mut i: usize = 0;
    assert(strs_view(items@).take(0) =~= Seq::<Seq<char>>::empty());
    while i < n
        invariant
            0 <= i <= n == items@.len(),
            out@ == spec_join(strs_view(items@).take(i as int), sep@),
        decreases n - i,
    {
        let ghost prev = strs_view(items@).take(i as int);
        proof {
            assert(strs_view(items@).take(i + 1) =~= prev.push(items@[i as int]@));
            lemma_join_push(prev, sep@, items@[i as int]@);
        }
        if i > 0 {
            push_str(&mut out, sep);
        }
        push_str(&mut out, items[i]);
        i = i + 1;
        assert(out@ =~= spec_join(strs_view(items@).take(i as int), sep@));
    }
    assert(strs_view(items@).take(n as int) =~= strs_view(items@));
    out
}

/// Owned copies of string slices.
pub fn owned_all(items: &[&str]) -> (r: Vec<String>)
    ensures
        strings_view(r@) == strs_view(items@),
{
    let mut out: Vec<String> = Vec::new();
    let n = items.len();
    let mut i: usize = 0;
    while i < n
        invariant
            0 <= i <= n == items@.len(),
            out@.len() == i,
            strings_view(out@) == strs_view(items@).take(i as int),
        decreases n - i,
    {
        let ghost prev = out@;
        let s = owned(items[i]);
        out.push(s);
        proof {
            assert forall|j: int| 0 <= j < i + 1 implies #[trigger] strings_view(out@)[j] == strs_view(items@).take(i + 1)[j] by {
                if j < i {
                    assert(out@[j] == prev[j]);
                    assert(strings_view(prev)[j] == strs_view(items@).take(i as int)[j]);
                }
            }
        }
        i = i + 1;
        assert(strings_view(out@) =~= strs_view(items@).take(i as int));
    }
    assert(strs_view(items@).take(n as int) =~= strs_view(items@));
    out
}

/// String slices of a list of strings.
pub fn as_strs(v: &[String]) -> (r: Vec<&str>)
    ensures
        strs_view(r@) == strings_view(v@),
{
    let mut out: Vec<&str> = Vec::new();
    let n = v.len();
    let mut i: usize = 0;
    while i < n
        invariant
            0 <= i <= n == v@.len(),
            out@.len() == i,
            strs_view(out@) == strings_view(v@).take(i as int),
        decreases n - i,
    {
        out.push(v[i].as_str());
        i = i + 1;
        assert(strs_view(out@) =~= strings_view(v@).take(i as int));
    }
    assert(strings_view(v@).take(n as int) =~= strings_view(v@));
    out
}

/// Whether a list of strings holds `s`.
pub fn contains_string(items: &[String], s: &str) -> (r: bool)
    ensures
        r == strings_view(items@).contains(s@),
{
    let n = items.len();
    let mut i: usize = 0;
    while i < n
        invariant
            0 <= i <= n == items@.len(),
            forall|j: int| 0 <= j < i ==> items@[j]@ != s@,
        decreases n - i,
    {
        if str_eq(items[i].as_str(), s) {
            assert(strings_view(items@)[i as int] == s@);
            return true;
        }
        i = i + 1;
    }
    proof {
        if strings_view(items@).contains(s@) {
            let j = choose|j: int| 0 <= j < strings_view(items@).len() && strings_view(items@)[j] == s@;
            assert(items@[j]@ == s@);
        }
    }
    false
}

/// Lexicographic order of character sequences, by code point: the order of
/// `<` on `str`, which compares UTF-8 bytes, that is code points.
pub open spec fn spec_lex_lt(a: Seq<char>, b: Seq<char>) -> bool
    decreases a.len(),
{
    if a.len() == 0 {
        b.len() > 0
    } else if b.len() == 0 {
        false
    } else if (a[0] as int) < (b[0] as int) {
        true
    } else if a[0] == b[0] {
        spec_lex_lt(a.drop_first(), b.drop_first())
    } else {
        false
    }
}

/// The order is strict and total.
pub proof fn lemma_lex_total(a: Seq<char>, b: Seq<char>)
    ensures
        !(spec_lex_lt(a, b) && spec_lex_lt(b, a)),
        spec_lex_lt(a, b) || a == b || spec_lex_lt(b, a),
        !spec_lex_lt(a, a),
    decreases a.len(),
{
    if a.len() > 0 && b.len() > 0 && a[0] == b[0] {
        lemma_lex_total(a.drop_first(), b.drop_first());
        if a.drop_first() == b.drop_first() {
            assert(a =~= seq![a[0]] + a.drop_first());
            assert(b =~= seq![b[0]] + b.drop_first());
        }
    }
    if a.len() > 0 {
        lemma_lex_total(a.drop_first(), a.drop_first());
    }
    if a.len() == 0 && b.len() == 0 {
        assert(a =~= b);
    }
    if a.len() > 0 && b.len() > 0 && a[0] != b[0] {
        assert((a[0] as int) != (b[0] as int));
    }
}

/// A sequence with one more item holds exactly what it held and that item.
pub proof fn lemma_push_contains<A>(s: Seq<A>, x: A, k: A)
    ensures
        s.push(x).contains(k) <==> (s.contains(k) || k == x),
{
    if s.contains(k) {
        let j = choose|j: int| 0 <= j < s.len() && s[j] == k;
        assert(s.push(x)[j] == k);
    }
    if k == x {
        assert(s.push(x)[s.len() as int] == k);
    }
    if s.push(x).contains(k) {
        let j = choose|j: int| 0 <= j < s.push(x).len() && s.push(x)[j] == k;
        if j < s.len() {
            assert(s[j] == k);
        }
    }
}

/// The order is transitive.
pub proof fn lemma_lex_transitive(a: Seq<char>, b: Seq<char>, c: Seq<char>)
    requires
        spec_lex_lt(a, b),
        spec_lex_lt(b, c),
    ensures
        spec_lex_lt(a, c),
    decreases a.len(),
{
    if a.len() > 0 && b.len() > 0 && c.len() > 0 && a[0] == b[0] && b[0] == c[0] {
        lemma_lex_transitive(a.drop_first(), b.drop_first(), c.drop_first());
    }
}

/// Whether `a` comes before `b` in lexicographic order.
pub fn str_lt(a: &str, b: &str) -> (r: bool)
    ensures
        r == spec_lex_lt(a@, b@),
{
    let x = str_chars(a);
    let y = str_chars(b);
    let mut i: usize = 0;
    assert(x@.skip(0) =~= x@);
    assert(y@.skip(0) =~= y@);
    while i < x.len() && i < y.len()
        invariant
            0 <= i <= x@.len(),
            i <= y@.len(),
            x@ == a@,
            y@ == b@,
            spec_lex_lt(a@, b@) == spec_lex_lt(x@.skip(i as int), y@.skip(i as int)),
        decreases x@.len() - i,
    {
        assert(x@.skip(i as int)[0] == x@[i as int]);
        assert(y@.skip(i as int)[0] == y@[i as int]);
        if x[i] < y[i] {
            return true;
        }
        if x[i] != y[i] {
            return false;
        }
        assert(x@.skip(i as int).drop_first() =~= x@.skip(i + 1));
        assert(y@.skip(i as int).drop_first() =~= y@.skip(i + 1));
        i = i + 1;
    }
    i < y.len()
}

/// Strictly increasing in lexicographic order.
pub open spec fn spec_strictly_sorted(s: Seq<Seq<char>>) -> bool {
    forall|i: int, j: int| 0 <= i < j < s.len() ==> spec_lex_lt(#[trigger] s[i], #[trigger] s[j])
}

/// The strings sorted in lexicographic order without repeats, as a sort
/// followed by a dedup gives them.
pub fn sorted_unique(items: &[String]) -> (r: Vec<String>)
    ensures
        spec_strictly_sorted(strings_view(r@)),
        forall|k: Seq<char>| #[trigger] strings_view(r@).contains(k) <==> strings_view(items@).contains(k),
{
    let mut out: Vec<String> = Vec::new();
    let n = items.len();
    let mut i: usize = 0;
    while i < n
        invariant
            0 <= i <= n == items@.len(),
            spec_strictly_sorted(strings_view(out@)),
            forall|k: Seq<char>| #[trigger] strings_view(out@).contains(k) <==> strings_view(items@).take(i as int).contains(k),
        decreases n - i,
    {
        let x = items[i].as_str();
        let ghost xs = x@;
        let ghost before = strings_view(out@);
        // the first position whose string is not below x
        let m = out.len();
        let mut p: usize = 0;
        let mut stop = false;
        while p < m && !stop
            invariant
                0 <= p <= m == out@.len(),
                strings_view(out@) == before,
                xs == x@,
                forall|j: int| 0 <= j < p ==> spec_lex_lt(#[trigger] before[j], xs),
                stop ==> p < m && !spec_lex_lt(before[p as int], xs),
            decreases m - p + (if stop { 0int } else { 1int }),
        {
            assert(out@[p as int]@ == before[p as int]);
            if str_lt(out[p].as_str(), x) {
                p = p + 1;
            } else {
                stop = true;
            }
        }
        let present = p < m && str_eq(out[p].as_str(), x);
        proof {
            assert(strings_view(items@).take(i + 1) =~= strings_view(items@).take(i as int).push(xs));
            assert forall|k: Seq<char>| #[trigger] strings_view(items@).take(i + 1).contains(k) <==> (before.contains(k) || k == xs) by {
                lemma_push_contains(strings_view(items@).take(i as int), xs, k);
            }
            if p < m {
                assert(out@[p as int]@ == before[p as int]);
            }
        }
        if !present {
            proof {
                if p < m {
                    lemma_lex_total(before[p as int], xs);
                }
            }
            out.insert(p, owned(x));
            proof {
                let after = strings_view(out@);
                assert(after =~= before.take(p as int).push(xs) + before.skip(p as int));
                assert forall|a: int, b: int| 0 <= a < b < after.len() implies spec_lex_lt(#[trigger] after[a], #[trigger] after[b]) by {
                    if b < p {
                    } else if b == p {
                    } else if a < p {
                        assert(after[b] == before[b - 1]);
                        assert(spec_lex_lt(xs, before[p as int]));
                        if b - 1 > p {
                            assert(spec_lex_lt(before[p as int], before[b - 1]));
                            lemma_lex_transitive(xs, before[p as int], before[b - 1]);
                        }
                        lemma_lex_transitive(before[a], xs, before[b - 1]);
                    } else if a == p {
                        assert(after[b] == before[b - 1]);
                        if b - 1 > p {
                            assert(spec_lex_lt(before[p as int], before[b - 1]));
                            lemma_lex_transitive(xs, before[p as int], before[b - 1]);
                        }
                    } else {
                        assert(after[a] == before[a - 1]);
                        assert(after[b] == before[b - 1]);
                    }
                }
                assert forall|k: Seq<char>| #[trigger] after.contains(k) <==> strings_view(items@).take(i + 1).contains(k) by {
                    if after.contains(k) {
                        let j = choose|j: int| 0 <= j < after.len() && after[j] == k;
                        if j < p {
                            assert(before[j] == k);
                        } else if j > p {
                            assert(before[j - 1] == k);
                        }
                    }
                    if before.contains(k) {
                        let j = choose|j: int| 0 <= j < before.len() && before[j] == k;
                        if j < p {
                            assert(after[j] == k);
                        } else {
                            assert(after[j + 1] == k);
                        }
                    }
                    if k == xs {
                        assert(after[p as int] == k);
                    }
                }
            }
        } else {
            proof {
                assert forall|k: Seq<char>| #[trigger] before.contains(k) <==> strings_view(items@).take(i + 1).contains(k) by {
                    if k == xs {
                        assert(before[p as int] == k);
                    }
                }
            }
        }
        i = i + 1;
    }
    assert(strings_view(items@).take(n as int) =~= strings_view(items@));
    out
}

/// `a + b` as a new string.
pub fn concat(a: &str, b: &str) -> (r: String)
    ensures
        r@ == a@ + b@,
{
    let mut s = owned(a);
    push_str(&mut s, b);
    s
}

/// Whether two string slices hold the same characters.
pub fn str_eq(a: &str, b: &str) -> (r: bool)
    ensures
        r == (a@ == b@),
{
    let x = owned(a);
    let y = owned(b);
    x == y
}

/// Index of the first non-whitespace character at or after `i`.
proof fn lemma_trim_start_skip(s: Seq<char>, i: int)
    requires
        0 <= i <= s.len(),
        forall|j: int| 0 <= j < i ==> spec_is_whitespace(#[trigger] s[j]),
    ensures
        spec_trim_start(s) == spec_trim_start(s.subrange(i, s.len() as int)),
    decreases i,
{
    if i > 0 {
        assert(s.drop_first().subrange(i - 1, s.drop_first().len() as int) =~= s.subrange(i, s.len() as int));
        assert forall|j: int| 0 <= j < i - 1 implies spec_is_whitespace(#[trigger] s.drop_first()[j]) by {
            assert(s.drop_first()[j] == s[j + 1]);
        }
        lemma_trim_start_skip(s.drop_first(), i - 1);
    } else {
        assert(s.subrange(0, s.len() as int) =~= s);
    }
}

proof fn lemma_trim_end_skip(s: Seq<char>, k: int)
    requires
        0 <= k <= s.len(),
        forall|j: int| k <= j < s.len() ==> spec_is_whitespace(#[trigger] s[j]),
    ensures
        spec_trim_end(s) == spec_trim_end(s.subrange(0, k)),
    decreases s.len() - k,
{
    if k < s.len() {
        assert(s.drop_last().subrange(0, k) =~= s.subrange(0, k));
        assert forall|j: int| k <= j < s.drop_last().len() implies spec_is_whitespace(#[trigger] s.drop_last()[j]) by {
            assert(s.drop_last()[j] == s[j]);
        }
        lemma_trim_end_skip(s.drop_last(), k);
    } else {
        assert(s.subrange(0, s.len() as int) =~= s);
    }
}

/// `s.trim()`: leading and trailing whitespace removed.
pub fn trim(s: &str) -> (r: String)
    ensures
        r@ == spec_trim(s@),
{
    let v = str_chars(s);
    let n = v.len();
    let mut i: usize = 0;
    while i < n && char_is_whitespace(v[i])
        invariant
            0 <= i <= n == v@.len(),
            forall|j: int| 0 <= j < i ==> spec_is_whitespace(#[trigger] v@[j]),
        decreases n - i,
    {
        i = i + 1;
    }
    proof {
        lemma_trim_start_skip(v@, i as int);
    }
    let ghost t = v@.subrange(i as int, n as int);
    assert(i < n ==> !spec_is_whitespace(t[0]));
    assert(spec_trim_start(t) == t);
    let mut k: usize = n;
    while k > i && char_is_whitespace(v[k - 1])
        invariant
            i <= k <= n == v@.len(),
            t == v@.subrange(i as int, n as int),
            forall|j: int| k - i <= j < t.len() ==> spec_is_whitespace(#[trigger] t[j]),
        decreases k,
    {
        k = k - 1;
    }
    proof {
        lemma_trim_end_skip(t, k - i);
        assert(t.subrange(0, k - i) =~= v@.subrange(i as int, k as int));
    }
    string_from_range(&v, i, k)
}

proof fn lemma_decimal_nonempty(n: nat)
    ensures
        spec_decimal(n).len() > 0,
    decreases n,
{
    if n >= 10 {
        lemma_decimal_nonempty(n / 10);
    }
}

/// Append the decimal digits of `n` to `out`.
pub fn push_decimal(out: &mut String, n: u64)
    ensures
        final(out)@ == old(out)@ + spec_decimal(n as nat),
    decreases n,
{
    if n >= 10 {
        push_decimal(out, n / 10);
    }
    let d = (n % 10) as u8;
    let c = (48u8 + d) as char;
    assert(c == digit_char((n % 10) as nat));
    push_char(out, c);
    if n >= 10 {
        assert(out@ =~= old(out)@ + spec_decimal(n as nat));
    } else {
        assert(out@ =~= old(out)@ + spec_decimal(n as nat));
    }
}

/// Decimal rendering of `n`, as `n.to_string()` gives it.
pub fn decimal_string(n: u64) -> (r: String)
    ensures
        r@ == spec_decimal(n as nat),
{
    let mut s = String::new();
    push_decimal(&mut s, n);
    assert(s@ =~= spec_decimal(n as nat));
    s
}

proof fn lemma_digits_value_prefix(s: Seq<char>, k: int)
    requires
        0 <= k <= s.len(),
        all_digits(s),
    ensures
        digits_value(s.take(k)) <= digits_value(s),
    decreases s.len() - k,
{
    if k < s.len() {
        assert(s.take(k + 1).drop_last() =~= s.take(k));
        lemma_digits_value_prefix(s, k + 1);
        assert(is_ascii_digit(s.take(k + 1).last()));
    } else {
        assert(s.take(k) =~= s);
    }
}

/// Parse an unsigned decimal integer no larger than `max`, as `str::parse` does
/// for the unsigned integer type whose largest value is `max`.
pub fn parse_uint(s: &str, max: u64) -> (r: Option<u64>)
    ensures
        match r {
            Some(v) => spec_parse_uint(s@, max as nat) == Some(v as nat),
            None => spec_parse_uint(s@, max as nat).is_none(),
        },
{
    let v = str_chars(s);
    let n = v.len();
    let start: usize = if n > 0 && v[0] == '+' { 1 } else { 0 };
    let ghost digits = if s@.len() > 0 && s@[0] == '+' { s@.drop_first() } else { s@ };
    assert(digits =~= v@.subrange(start as int, n as int));
    if start == n {
        return None;
    }
    let mut acc: u64 = 0;
    let mut i = start;
    while i < n
        invariant
            start <= i <= n == v@.len(),
            v@ == s@,
            digits == (if s@.len() > 0 && s@[0] == '+' { s@.drop_first() } else { s@ }),
            digits == v@.subrange(start as int, n as int),
            forall|j: int| start <= j < i ==> is_ascii_digit(#[trigger] v@[j]),
            acc as nat == digits_value(v@.subrange(start as int, i as int)),
            acc <= max,
        decreases n - i,
    {
        let c = v[i];
        if !('0' <= c && c <= '9') {
            assert(!all_digits(digits)) by {
                assert(digits[i - start] == c);
            }
            return None;
        }
        let d = (c as u32 - '0' as u32) as u64;
        assert(v@.subrange(start as int, i + 1).drop_last() =~= v@.subrange(start as int, i as int));
        if d > max || acc > (max - d) / 10 {
            proof {
                let p = v@.subrange(start as int, i + 1);
                assert(digits_value(p) > max) by (nonlinear_arith)
                    requires
                        digits_value(p) == 10 * acc + d,
                        d > max || acc > (max - d) / 10,
                        d <= 9,
                {
                }
                if all_digits(digits) {
                    assert(digits.take(i + 1 - start) =~= p);
                    lemma_digits_value_prefix(digits, i + 1 - start);
                }
            }
            return None;
        }
        acc = acc * 10 + d;
        i = i + 1;
    }
    assert(v@.subrange(start as int, n as int) == digits);
    assert(all_digits(digits)) by {
        assert forall|j: int| 0 <= j < digits.len() implies is_ascii_digit(#[trigger] digits[j]) by {
            assert(digits[j] == v@[j + start]);
        }
    }
    Some(acc)
}

}

verus! {

/// Index of the first occurrence of `c` in `s`.
pub open spec fn spec_find_char(s: Seq<char>, c: char) -> Option<int>
    decreases s.len(),
{
    if s.len() == 0 {
        None
    } else if s[0] == c {
        Some(0)
    } else {
        match spec_find_char(s.drop_first(), c) {
            Some(i) => Some(i + 1),
            None => None,
        }
    }
}

pub proof fn lemma_find_char_at(s: Seq<char>, c: char, j: int)
    requires
        0 <= j < s.len(),
        s[j] == c,
        forall|k: int| 0 <= k < j ==> s[k] != c,
    ensures
        spec_find_char(s, c) == Some(j),
    decreases j,
{
    if j > 0 {
        assert forall|k: int| 0 <= k < j - 1 implies s.drop_first()[k] != c by {
            assert(s.drop_first()[k] == s[k + 1]);
        }
        lemma_find_char_at(s.drop_first(), c, j - 1);
    }
}

pub proof fn lemma_find_char_none(s: Seq<char>, c: char)
    requires
        forall|k: int| 0 <= k < s.len() ==> s[k] != c,
    ensures
        spec_find_char(s, c).is_none(),
    decreases s.len(),
{
    if s.len() > 0 {
        assert forall|k: int| 0 <= k < s.len() - 1 implies s.drop_first()[k] != c by {
            assert(s.drop_first()[k] == s[k + 1]);
        }
        lemma_find_char_none(s.drop_first(), c);
    }
}

pub proof fn lemma_find_char_props(s: Seq<char>, c: char)
    ensures
        spec_find_char(s, c) matches Some(i) ==> 0 <= i < s.len() && s[i] == c && forall|k: int|
            0 <= k < i ==> s[k] != c,
        spec_find_char(s, c).is_none() ==> forall|k: int| 0 <= k < s.len() ==> s[k] != c,
    decreases s.len(),
{
    if s.len() > 0 {
        lemma_find_char_props(s.drop_first(), c);
        if s[0] != c {
            assert forall|k: int| 0 < k < s.len() implies s[k] == s.drop_first()[k - 1] by {}
        }
    }
}

/// The pieces of `s` between occurrences of `sep`, as `str::split` gives them:
/// always at least one piece.
pub open spec fn spec_split(s: Seq<char>, sep: char) -> Seq<Seq<char>>
    decreases s.len(),
{
    match spec_find_char(s, sep) {
        None => seq![s],
        Some(i) => if 0 <= i < s.len() {
            seq![s.take(i)] + spec_split(s.skip(i + 1), sep)
        } else {
            seq![s]
        },
    }
}

/// `s.split(sep)`: the pieces between the separators, each copied.
pub fn split_char(s: &str, sep: char) -> (r: Vec<String>)
    ensures
        r@.len() == spec_split(s@, sep).len(),
        forall|i: int| 0 <= i < r@.len() ==> #[trigger] r@[i]@ == spec_split(s@, sep)[i],
{
    let v = str_chars(s);
    let n = v.len();
    let mut out: Vec<String> = Vec::new();
    let ghost pieces: Seq<Seq<char>> = Seq::empty();
    let mut start: usize = 0;
    let mut i: usize = 0;
    assert(v@.skip(0) =~= v@);
    while i < n
        invariant
            0 <= start <= i <= n == v@.len(),
            v@ == s@,
            out@.len() == pieces.len(),
            forall|j: int| 0 <= j < out@.len() ==> #[trigger] out@[j]@ == pieces[j],
            pieces + spec_split(v@.skip(start as int), sep) == spec_split(v@, sep),
            forall|k: int| start <= k < i ==> v@[k] != sep,
        decreases n - i,
    {
        if v[i] == sep {
            let piece = string_from_range(&v, start, i);
            proof {
                let t = v@.skip(start as int);
                assert forall|k: int| 0 <= k < i - start implies t[k] != sep by {
                    assert(t[k] == v@[start + k]);
                }
                lemma_find_char_at(t, sep, i - start);
                assert(t.take(i - start) =~= v@.subrange(start as int, i as int));
                assert(t.skip(i - start + 1) =~= v@.skip(i + 1));
                assert(pieces.push(piece@) + spec_split(v@.skip(i + 1), sep) =~= pieces + spec_split(t, sep));
                pieces = pieces.push(piece@);
            }
            out.push(piece);
            start = i + 1;
        }
        i = i + 1;
    }
    let last = string_from_range(&v, start, n);
    proof {
        let t = v@.skip(start as int);
        assert forall|k: int| 0 <= k < t.len() implies t[k] != sep by {
            assert(t[k] == v@[start + k]);
        }
        lemma_find_char_none(t, sep);
        assert(t =~= v@.subrange(start as int, n as int));
        assert(pieces.push(last@) =~= pieces + spec_split(t, sep));
        pieces = pieces.push(last@);
    }
    out.push(last);
    out
}

/// Index of the first occurrence of `pat` in `s` at or after `k`.
pub open spec fn spec_find_sub_from(s: Seq<char>, pat: Seq<char>, k: int) -> Option<int>
    decreases s.len() + 1 - k,
{
    if k < 0 || k + pat.len() > s.len() {
        None
    } else if s.subrange(k, k + pat.len()) == pat {
        Some(k)
    } else {
        spec_find_sub_from(s, pat, k + 1)
    }
}

/// Index of the first occurrence of `pat` in `s`.
pub open spec fn spec_find_sub(s: Seq<char>, pat: Seq<char>) -> Option<int> {
    spec_find_sub_from(s, pat, 0)
}

pub proof fn lemma_find_sub_from_some(s: Seq<char>, pat: Seq<char>, k: int)
    ensures
        spec_find_sub_from(s, pat, k) matches Some(i) ==> k <= i && i + pat.len() <= s.len()
            && s.subrange(i, i + pat.len()) == pat,
    decreases s.len() + 1 - k,
{
    if !(k < 0 || k + pat.len() > s.len()) && s.subrange(k, k + pat.len()) != pat {
        lemma_find_sub_from_some(s, pat, k + 1);
    }
}

/// Whether `s` holds `pat` starting at index `i`.
fn matches_at(s: &[char], pat: &[char], i: usize) -> (r: bool)
    requires
        i + pat@.len() <= s@.len(),
    ensures
        r == (s@.subrange(i as int, i + pat@.len()) == pat@),
{
    let m = pat.len();
    let n = s.len();
    let mut k: usize = 0;
    while k < m
        invariant
            0 <= k <= m == pat@.len(),
            n == s@.len(),
            i + m <= n,
            forall|j: int| 0 <= j < k ==> s@[i + j] == pat@[j],
        decreases m - k,
    {
        if s[i + k] != pat[k] {
            assert(s@.subrange(i as int, i + pat@.len())[k as int] != pat@[k as int]);
            return false;
        }
        k = k + 1;
    }
    assert(s@.subrange(i as int, i + pat@.len()) =~= pat@);
    true
}

/// `s.find(pat)` counted in characters.
pub fn find_sub(s: &[char], pat: &[char]) -> (r: Option<usize>)
    ensures
        match r {
            Some(i) => spec_find_sub(s@, pat@) == Some(i as int),
            None => spec_find_sub(s@, pat@).is_none(),
        },
{
    let n = s.len();
    let m = pat.len();
    if m > n {
        return None;
    }
    if m == 0 {
        assert(s@.subrange(0, 0) =~= pat@);
        return Some(0);
    }
    let mut i: usize = 0;
    while i <= n - m
        invariant
            0 <= i <= n - m + 1,
            n == s@.len(),
            m == pat@.len(),
            1 <= m <= n,
            spec_find_sub(s@, pat@) == spec_find_sub_from(s@, pat@, i as int),
        decreases n - m + 1 - i,
    {
        if matches_at(s, pat, i) {
            return Some(i);
        }
        i = i + 1;
    }
    None
}

}
