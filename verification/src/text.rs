//! Character-level string primitives with their mathematical meaning.
//!
//! Every string is modelled by its sequence of Unicode scalar values (`s@`).
//! The functions here are the building blocks that the request validators,
//! form builders and response decoders of the crate are written with.
use vstd::prelude::*;

verus! {

/// `String::push` appends one character to the end of the string.
pub assume_specification[ String::push ](string: &mut String, ch: char)
    ensures
        final(string)@ == old(string)@.push(ch),
;

/// The Unicode `White_Space` property, which is what `char::is_whitespace`
/// (and therefore `str::trim` and `str::split_whitespace`) tests.
pub open spec fn is_whitespace(c: char) -> bool {
    let n = c as u32;
    ||| (0x9 <= n && n <= 0xd)
    ||| n == 0x20
    ||| n == 0x85
    ||| n == 0xa0
    ||| n == 0x1680
    ||| (0x2000 <= n && n <= 0x200a)
    ||| n == 0x2028
    ||| n == 0x2029
    ||| n == 0x202f
    ||| n == 0x205f
    ||| n == 0x3000
}

/// `s` without its leading whitespace.
pub open spec fn trim_start_ws(s: Seq<char>) -> Seq<char>
    decreases s.len(),
{
    if s.len() > 0 && is_whitespace(s[0]) {
        trim_start_ws(s.drop_first())
    } else {
        s
    }
}

/// `s` without its trailing whitespace.
pub open spec fn trim_end_ws(s: Seq<char>) -> Seq<char>
    decreases s.len(),
{
    if s.len() > 0 && is_whitespace(s.last()) {
        trim_end_ws(s.drop_last())
    } else {
        s
    }
}

/// `s` without leading and trailing whitespace (`str::trim`).
pub open spec fn trim_ws(s: Seq<char>) -> Seq<char> {
    trim_end_ws(trim_start_ws(s))
}

/// `s` is empty once trimmed, i.e. it holds nothing but whitespace.
pub open spec fn is_blank(s: Seq<char>) -> bool {
    trim_ws(s).len() == 0
}

/// `s` without any leading occurrences of `c` (`str::trim_start_matches` with a char).
pub open spec fn trim_start_char(s: Seq<char>, c: char) -> Seq<char>
    decreases s.len(),
{
    if s.len() > 0 && s[0] == c {
        trim_start_char(s.drop_first(), c)
    } else {
        s
    }
}

/// `s` without any trailing occurrences of `c` (`str::trim_end_matches` with a char).
pub open spec fn trim_end_char(s: Seq<char>, c: char) -> Seq<char>
    decreases s.len(),
{
    if s.len() > 0 && s.last() == c {
        trim_end_char(s.drop_last(), c)
    } else {
        s
    }
}

/// The trimmed value of an optional string, or `None` when it is absent or blank.
pub open spec fn trimmed_nonblank(o: Option<Seq<char>>) -> Option<Seq<char>> {
    match o {
        Some(s) => if is_blank(s) {
            None
        } else {
            Some(trim_ws(s))
        },
        None => None,
    }
}

/// The view of an optional owned string.
pub open spec fn opt_view(o: Option<String>) -> Option<Seq<char>> {
    match o {
        Some(s) => Some(s@),
        None => None,
    }
}

/// The view of an optional string slice.
pub open spec fn opt_str_view(o: Option<&str>) -> Option<Seq<char>> {
    match o {
        Some(s) => Some(s@),
        None => None,
    }
}

/// ASCII lowercase of one character; every other character is unchanged.
pub open spec fn ascii_lower(c: char) -> char {
    if 'A' <= c && c <= 'Z' {
        ((c as u32) + 32) as char
    } else {
        c
    }
}

/// Equality up to ASCII case (`str::eq_ignore_ascii_case`).
pub open spec fn eq_ignore_ascii_case(a: Seq<char>, b: Seq<char>) -> bool {
    &&& a.len() == b.len()
    &&& forall|i: int| 0 <= i < a.len() ==> #[trigger] ascii_lower(a[i]) == ascii_lower(b[i])
}

/// `s` begins with `p`.
pub open spec fn starts_with(s: Seq<char>, p: Seq<char>) -> bool {
    p.len() <= s.len() && s.subrange(0, p.len() as int) == p
}

/// `needle` occurs in `hay` starting at index `i`.
pub open spec fn occurs_at(hay: Seq<char>, needle: Seq<char>, i: int) -> bool {
    0 <= i && i + needle.len() <= hay.len() && hay.subrange(i, i + needle.len()) == needle
}

/// `needle` occurs somewhere in `hay` (`str::contains`).
pub open spec fn contains_seq(hay: Seq<char>, needle: Seq<char>) -> bool {
    exists|i: int| occurs_at(hay, needle, i)
}

/// `c` occurs in `s`.
pub open spec fn has_char(s: Seq<char>, c: char) -> bool {
    exists|i: int| 0 <= i < s.len() && s[i] == c
}

/// Every `split_whitespace` word of `s`, joined by single spaces.
///
/// Stated as a left-to-right scan: the first component is the text produced
/// so far, the second whether whitespace has been seen since the last word
/// character that was emitted.
pub open spec fn collapse_scan(s: Seq<char>) -> (Seq<char>, bool)
    decreases s.len(),
{
    if s.len() == 0 {
        (Seq::empty(), false)
    } else {
        let (out, pending) = collapse_scan(s.drop_last());
        let c = s.last();
        if is_whitespace(c) {
            (out, out.len() > 0)
        } else if pending {
            (out.push(' ').push(c), false)
        } else {
            (out.push(c), false)
        }
    }
}

/// `s.split_whitespace().collect::<Vec<_>>().join(" ")`.
pub open spec fn collapse_ws(s: Seq<char>) -> Seq<char> {
    collapse_scan(s).0
}

/// The first `n` characters of `s` followed by `"..."` when `s` is longer
/// than `n` characters, else `s` itself.
pub open spec fn truncate_chars(s: Seq<char>, n: nat) -> Seq<char> {
    if s.len() > n {
        s.subrange(0, n as int) + seq!['.', '.', '.']
    } else {
        s
    }
}

/// The characters of a string slice, in order.
pub fn chars_of(s: &str) -> (v: Vec<char>)
    ensures
        v@ == s@,
{
    let mut v: Vec<char> = Vec::new();
    for c in it: s.chars()
        invariant
            it.seq() == s@,
            v@ == it.seq().take(it.index() as int),
    {
        v.push(c);
    }
    v
}

/// A string holding the characters `v[from..to]`.
pub fn string_of_range(v: &Vec<char>, from: usize, to: usize) -> (s: String)
    requires
        from <= to <= v.len(),
    ensures
        s@ == v@.subrange(from as int, to as int),
{
    let mut s = String::new();
    let mut i: usize = from;
    while i < to
        invariant
            from <= i <= to <= v.len(),
            s@ == v@.subrange(from as int, i as int),
        decreases to - i,
    {
        s.push(v[i]);
        i = i + 1;
    }
    s
}

/// A string holding the characters of `v`.
pub fn string_of(v: &Vec<char>) -> (s: String)
    ensures
        s@ == v@,
{
    let s = string_of_range(v, 0, v.len());
    assert(v@.subrange(0, v@.len() as int) =~= v@);
    s
}

/// An owned copy of a string slice.
pub fn owned(s: &str) -> (r: String)
    ensures
        r@ == s@,
{
    s.to_owned()
}

/// `a` followed by `b`.
pub fn concat(a: &str, b: &str) -> (r: String)
    ensures
        r@ == a@ + b@,
{
    let mut r = a.to_owned();
    r.append(b);
    r
}

/// `a` followed by `b` followed by `c`.
pub fn concat3(a: &str, b: &str, c: &str) -> (r: String)
    ensures
        r@ == a@ + b@ + c@,
{
    let mut r = a.to_owned();
    r.append(b);
    r.append(c);
    r
}

/// Whether `c` has the Unicode `White_Space` property.
pub fn char_is_whitespace(c: char) -> (b: bool)
    ensures
        b == is_whitespace(c),
{
    let n = c as u32;
    (0x9 <= n && n <= 0xd) || n == 0x20 || n == 0x85 || n == 0xa0 || n == 0x1680 || (0x2000 <= n
        && n <= 0x200a) || n == 0x2028 || n == 0x2029 || n == 0x202f || n == 0x205f || n
        == 0x3000
}

proof fn lemma_trim_start_skip(s: Seq<char>, i: int)
    requires
        0 <= i < s.len(),
        is_whitespace(s[i]),
    ensures
        trim_start_ws(s.skip(i)) == trim_start_ws(s.skip(i + 1)),
{
    assert(s.skip(i).drop_first() =~= s.skip(i + 1));
}

proof fn lemma_trim_end_sub(s: Seq<char>, i: int, j: int)
    requires
        0 <= i < j <= s.len(),
        is_whitespace(s[j - 1]),
    ensures
        trim_end_ws(s.subrange(i, j)) == trim_end_ws(s.subrange(i, j - 1)),
{
    assert(s.subrange(i, j).drop_last() =~= s.subrange(i, j - 1));
}

/// The bounds of the trimmed part of `v`.
pub fn trim_range(v: &Vec<char>) -> (r: (usize, usize))
    ensures
        r.0 <= r.1 <= v.len(),
        v@.subrange(r.0 as int, r.1 as int) == trim_ws(v@),
{
    let n = v.len();
    let mut i: usize = 0;
    assert(v@.skip(0) =~= v@);
    while i < n && char_is_whitespace(v[i])
        invariant
            i <= n == v.len(),
            trim_start_ws(v@) == trim_start_ws(v@.skip(i as int)),
        decreases n - i,
    {
        proof {
            lemma_trim_start_skip(v@, i as int);
        }
        i = i + 1;
    }
    assert(trim_start_ws(v@) == v@.skip(i as int));
    assert(v@.skip(i as int) =~= v@.subrange(i as int, n as int));
    let mut j: usize = n;
    while j > i && char_is_whitespace(v[j - 1])
        invariant
            i <= j <= n == v.len(),
            trim_ws(v@) == trim_end_ws(v@.subrange(i as int, j as int)),
        decreases j - i,
    {
        proof {
            lemma_trim_end_sub(v@, i as int, j as int);
        }
        j = j - 1;
    }
    (i, j)
}

/// `s.trim()` as an owned string.
pub fn trimmed(s: &str) -> (r: String)
    ensures
        r@ == trim_ws(s@),
{
    let v = chars_of(s);
    let (a, b) = trim_range(&v);
    string_of_range(&v, a, b)
}

/// Whether `s` holds nothing but whitespace (`s.trim().is_empty()`).
pub fn blank(s: &str) -> (b: bool)
    ensures
        b == is_blank(s@),
{
    let v = chars_of(s);
    let (a, c) = trim_range(&v);
    a == c
}

/// `o.map(str::trim).filter(|v| !v.is_empty())`, owned.
pub fn trimmed_optional(o: Option<&str>) -> (r: Option<String>)
    ensures
        opt_view(r) == trimmed_nonblank(opt_str_view(o)),
{
    match o {
        None => None,
        Some(s) => {
            let t = trimmed(s);
            if t.as_str().is_empty() {
                None
            } else {
                Some(t)
            }
        },
    }
}

/// Whether two character vectors are equal.
pub fn chars_equal(a: &Vec<char>, b: &Vec<char>) -> (r: bool)
    ensures
        r == (a@ == b@),
{
    if a.len() != b.len() {
        return false;
    }
    let mut i: usize = 0;
    while i < a.len()
        invariant
            a.len() == b.len(),
            i <= a.len(),
            forall|k: int| 0 <= k < i ==> a@[k] == b@[k],
        decreases a.len() - i,
    {
        if a[i] != b[i] {
            return false;
        }
        i = i + 1;
    }
    assert(a@ =~= b@);
    true
}

/// Whether two strings hold the same characters.
pub fn str_equal(a: &str, b: &str) -> (r: bool)
    ensures
        r == (a@ == b@),
{
    let x = chars_of(a);
    let y = chars_of(b);
    chars_equal(&x, &y)
}

/// ASCII lowercase of one character.
pub fn char_ascii_lower(c: char) -> (r: char)
    ensures
        r == ascii_lower(c),
{
    if 'A' <= c && c <= 'Z' {
        let n: u8 = (c as u8) + 32;
        n as char
    } else {
        c
    }
}

/// Whether two strings are equal up to ASCII case.
pub fn equal_ignore_ascii_case(a: &str, b: &str) -> (r: bool)
    ensures
        r == eq_ignore_ascii_case(a@, b@),
{
    let x = chars_of(a);
    let y = chars_of(b);
    if x.len() != y.len() {
        return false;
    }
    let mut i: usize = 0;
    while i < x.len()
        invariant
            x@ == a@,
            y@ == b@,
            x.len() == y.len(),
            i <= x.len(),
            forall|k: int| 0 <= k < i ==> #[trigger] ascii_lower(x@[k]) == ascii_lower(y@[k]),
        decreases x.len() - i,
    {
        if char_ascii_lower(x[i]) != char_ascii_lower(y[i]) {
            assert(ascii_lower(x@[i as int]) != ascii_lower(y@[i as int]));
            return false;
        }
        i = i + 1;
    }
    true
}

/// Whether `needle` occurs in `hay` at index `at`.
pub fn occurs_at_index(hay: &Vec<char>, needle: &Vec<char>, at: usize) -> (r: bool)
    requires
        at <= hay.len(),
    ensures
        r == occurs_at(hay@, needle@, at as int),
{
    if needle.len() > hay.len() - at {
        return false;
    }
    let mut k: usize = 0;
    while k < needle.len()
        invariant
            at + needle.len() <= hay.len(),
            k <= needle.len(),
            forall|m: int| 0 <= m < k ==> hay@[at + m] == needle@[m],
        decreases needle.len() - k,
    {
        if hay[at + k] != needle[k] {
            assert(hay@.subrange(at as int, at + needle.len())[k as int] != needle@[k as int]);
            return false;
        }
        k = k + 1;
    }
    assert(hay@.subrange(at as int, at + needle.len()) =~= needle@);
    true
}

/// The first index at or after `from` where `needle` occurs in `hay`.
pub fn find_from(hay: &Vec<char>, needle: &Vec<char>, from: usize) -> (r: Option<usize>)
    requires
        from <= hay.len(),
    ensures
        match r {
            Some(i) => from <= i && occurs_at(hay@, needle@, i as int) && forall|j: int|
                from <= j < i ==> !occurs_at(hay@, needle@, j),
            None => forall|j: int| from <= j ==> !occurs_at(hay@, needle@, j),
        },
{
    let mut i: usize = from;
    while i < hay.len()
        invariant
            from <= i <= hay.len(),
            forall|j: int| from <= j < i ==> !occurs_at(hay@, needle@, j),
        decreases hay.len() - i,
    {
        if occurs_at_index(hay, needle, i) {
            return Some(i);
        }
        i = i + 1;
    }
    if occurs_at_index(hay, needle, i) {
        return Some(i);
    }
    None
}

/// Whether `needle` occurs in `hay`.
pub fn contains_chars(hay: &Vec<char>, needle: &Vec<char>) -> (r: bool)
    ensures
        r == contains_seq(hay@, needle@),
{
    match find_from(hay, needle, 0) {
        Some(i) => true,
        None => {
            assert forall|j: int| !occurs_at(hay@, needle@, j) by {
                if j < 0 {
                }
            }
            false
        },
    }
}

/// Whether `needle` occurs in `hay` (`str::contains`).
pub fn str_contains(hay: &str, needle: &str) -> (r: bool)
    ensures
        r == contains_seq(hay@, needle@),
{
    let h = chars_of(hay);
    let n = chars_of(needle);
    contains_chars(&h, &n)
}

/// Whether `s` begins with `p` (`str::starts_with`).
pub fn str_starts_with(s: &str, p: &str) -> (r: bool)
    ensures
        r == starts_with(s@, p@),
{
    let h = chars_of(s);
    let n = chars_of(p);
    occurs_at_index(&h, &n, 0)
}

/// Whether `c` occurs in `s`.
pub fn str_has_char(s: &str, c: char) -> (r: bool)
    ensures
        r == has_char(s@, c),
{
    let v = chars_of(s);
    let mut i: usize = 0;
    while i < v.len()
        invariant
            v@ == s@,
            i <= v.len(),
            forall|k: int| 0 <= k < i ==> v@[k] != c,
        decreases v.len() - i,
    {
        if v[i] == c {
            return true;
        }
        i = i + 1;
    }
    false
}

proof fn lemma_trim_start_char_skip(s: Seq<char>, c: char, i: int)
    requires
        0 <= i < s.len(),
        s[i] == c,
    ensures
        trim_start_char(s.skip(i), c) == trim_start_char(s.skip(i + 1), c),
{
    assert(s.skip(i).drop_first() =~= s.skip(i + 1));
}

/// `s.trim_start_matches(c)` as an owned string.
pub fn trim_start_matches_char(s: &str, c: char) -> (r: String)
    ensures
        r@ == trim_start_char(s@, c),
{
    let v = chars_of(s);
    let mut i: usize = 0;
    assert(v@.skip(0) =~= v@);
    while i < v.len() && v[i] == c
        invariant
            v@ == s@,
            i <= v.len(),
            trim_start_char(s@, c) == trim_start_char(s@.skip(i as int), c),
        decreases v.len() - i,
    {
        proof {
            lemma_trim_start_char_skip(s@, c, i as int);
        }
        i = i + 1;
    }
    assert(s@.skip(i as int) =~= v@.subrange(i as int, v.len() as int));
    string_of_range(&v, i, v.len())
}

proof fn lemma_trim_end_char_take(s: Seq<char>, c: char, j: int)
    requires
        0 < j <= s.len(),
        s[j - 1] == c,
    ensures
        trim_end_char(s.take(j), c) == trim_end_char(s.take(j - 1), c),
{
    assert(s.take(j).drop_last() =~= s.take(j - 1));
}

/// `s.trim_end_matches(c)` as an owned string.
pub fn trim_end_matches_char(s: &str, c: char) -> (r: String)
    ensures
        r@ == trim_end_char(s@, c),
{
    let v = chars_of(s);
    let mut j: usize = v.len();
    assert(v@.take(v.len() as int) =~= v@);
    while j > 0 && v[j - 1] == c
        invariant
            v@ == s@,
            j <= v.len(),
            trim_end_char(s@, c) == trim_end_char(s@.take(j as int), c),
        decreases j,
    {
        proof {
            lemma_trim_end_char_take(s@, c, j as int);
        }
        j = j - 1;
    }
    assert(s@.take(j as int) =~= v@.subrange(0, j as int));
    string_of_range(&v, 0, j)
}

/// `s.split_whitespace().collect::<Vec<_>>().join(" ")`.
pub fn collapse_whitespace(s: &str) -> (r: String)
    ensures
        r@ == collapse_ws(s@),
{
    let v = chars_of(s);
    let mut out = String::new();
    let mut pending = false;
    let mut emitted = false;
    let mut i: usize = 0;
    assert(v@.take(0) =~= Seq::<char>::empty());
    while i < v.len()
        invariant
            v@ == s@,
            i <= v.len(),
            emitted == (out@.len() > 0),
            (out@, pending) == collapse_scan(v@.take(i as int)),
        decreases v.len() - i,
    {
        let c = v[i];
        assert(v@.take(i + 1).drop_last() =~= v@.take(i as int));
        if char_is_whitespace(c) {
            pending = emitted;
        } else {
            if pending {
                out.push(' ');
            }
            out.push(c);
            pending = false;
            emitted = true;
        }
        i = i + 1;
    }
    assert(v@.take(v.len() as int) =~= v@);
    out
}

/// `s` cut to its first `n` characters followed by `"..."` when longer.
pub fn truncate_with_ellipsis(s: &str, n: usize) -> (r: String)
    ensures
        r@ == truncate_chars(s@, n as nat),
{
    let v = chars_of(s);
    if v.len() > n {
        let mut r = string_of_range(&v, 0, n);
        r.append("...");
        proof {
            reveal_strlit("...");
        }
        r
    } else {
        string_of(&v)
    }
}

/// An ASCII decimal digit.
pub open spec fn is_digit(c: char) -> bool {
    '0' <= c && c <= '9'
}

/// The value of a digit character.
pub open spec fn digit_value(c: char) -> int {
    (c as int) - ('0' as int)
}

/// The value of a sequence of decimal digits, most significant first.
pub open spec fn decimal_value(s: Seq<char>) -> int
    decreases s.len(),
{
    if s.len() == 0 {
        0
    } else {
        decimal_value(s.drop_last()) * 10 + digit_value(s.last())
    }
}

/// `s` without one leading `+`, if it has one.
pub open spec fn strip_plus(s: Seq<char>) -> Seq<char> {
    if s.len() > 0 && s[0] == '+' {
        s.drop_first()
    } else {
        s
    }
}

/// Every character of `s` is an ASCII digit.
pub open spec fn all_digits(s: Seq<char>) -> bool {
    forall|i: int| 0 <= i < s.len() ==> #[trigger] is_digit(s[i])
}

/// What `str::parse::<u32>` gives: an optional `+`, then one or more ASCII
/// digits whose value fits in a `u32`.
pub open spec fn parse_u32(s: Seq<char>) -> Option<u32> {
    let d = strip_plus(s);
    if d.len() > 0 && all_digits(d) && decimal_value(d) <= u32::MAX {
        Some(decimal_value(d) as u32)
    } else {
        None
    }
}

/// Lexicographic order by code point (the order of `str`'s `<`).
pub open spec fn lex_less(a: Seq<char>, b: Seq<char>) -> bool
    decreases a.len(),
{
    if a.len() == 0 {
        b.len() > 0
    } else if b.len() == 0 {
        false
    } else if a[0] != b[0] {
        (a[0] as u32) < (b[0] as u32)
    } else {
        lex_less(a.drop_first(), b.drop_first())
    }
}

proof fn lemma_decimal_value_nonneg(s: Seq<char>)
    requires
        forall|i: int| 0 <= i < s.len() ==> #[trigger] is_digit(s[i]),
    ensures
        decimal_value(s) >= 0,
    decreases s.len(),
{
    if s.len() > 0 {
        assert(is_digit(s[s.len() - 1]));
        lemma_decimal_value_nonneg(s.drop_last());
    }
}

proof fn lemma_decimal_value_prefix(s: Seq<char>, i: int)
    requires
        0 <= i <= s.len(),
        forall|k: int| 0 <= k < s.len() ==> #[trigger] is_digit(s[k]),
    ensures
        decimal_value(s) >= decimal_value(s.take(i)),
    decreases s.len(),
{
    if i == s.len() {
        assert(s.take(i) =~= s);
    } else {
        assert(is_digit(s[s.len() - 1]));
        assert(s.drop_last().take(i) =~= s.take(i));
        lemma_decimal_value_prefix(s.drop_last(), i);
        lemma_decimal_value_nonneg(s.drop_last());
    }
}

/// `s.parse::<u32>().ok()`.
pub fn parse_u32_chars(s: &Vec<char>) -> (r: Option<u32>)
    ensures
        r == parse_u32(s@),
{
    let start: usize = if s.len() > 0 && s[0] == '+' {
        1
    } else {
        0
    };
    let ghost d = strip_plus(s@);
    assert(d =~= s@.subrange(start as int, s@.len() as int));
    if start >= s.len() {
        return None;
    }
    let mut value: u64 = 0;
    let mut i: usize = start;
    assert(d.take(0) =~= Seq::<char>::empty());
    while i < s.len()
        invariant
            start <= i <= s.len(),
            d == strip_plus(s@),
            d =~= s@.subrange(start as int, s@.len() as int),
            forall|k: int| start <= k < i ==> #[trigger] is_digit(s@[k]),
            value as int == decimal_value(d.take(i - start)),
            value <= u32::MAX,
        decreases s.len() - i,
    {
        let c = s[i];
        if !('0' <= c && c <= '9') {
            assert(!is_digit(d[i - start]));
            assert(!all_digits(d));
            assert(parse_u32(s@) is None);
            return None;
        }
        let digit: u64 = ((c as u32) - ('0' as u32)) as u64;
        assert(d.take(i + 1 - start).drop_last() =~= d.take(i - start));
        assert(d.take(i + 1 - start).last() == c);
        value = value * 10 + digit;
        i = i + 1;
        assert(value as int == decimal_value(d.take(i - start)));
        if value > 0xffff_ffff {
            proof {
                if all_digits(d) {
                    lemma_decimal_value_prefix(d, i - start);
                    assert(decimal_value(d) > u32::MAX);
                }
            }
            assert(parse_u32(s@) is None);
            return None;
        }
    }
    assert(d.take(d.len() as int) =~= d);
    assert forall|k: int| 0 <= k < d.len() implies #[trigger] is_digit(d[k]) by {
        assert(is_digit(s@[k + start]));
    }
    Some(value as u32)
}

/// `a < b` in the order of `str`.
pub fn chars_less(a: &Vec<char>, b: &Vec<char>) -> (r: bool)
    ensures
        r == lex_less(a@, b@),
{
    let mut i: usize = 0;
    assert(a@.skip(0) =~= a@);
    assert(b@.skip(0) =~= b@);
    while i < a.len() && i < b.len() && a[i] == b[i]
        invariant
            i <= a.len(),
            i <= b.len(),
            lex_less(a@, b@) == lex_less(a@.skip(i as int), b@.skip(i as int)),
        decreases a.len() - i,
    {
        assert(a@.skip(i as int).drop_first() =~= a@.skip(i + 1));
        assert(b@.skip(i as int).drop_first() =~= b@.skip(i + 1));
        i = i + 1;
    }
    if i == a.len() {
        i < b.len()
    } else if i == b.len() {
        false
    } else {
        (a[i] as u32) < (b[i] as u32)
    }
}

proof fn lemma_trim_start_shape(s: Seq<char>)
    ensures
        trim_start_ws(s).len() == 0 || !is_whitespace(trim_start_ws(s)[0]),
    decreases s.len(),
{
    if s.len() > 0 && is_whitespace(s[0]) {
        lemma_trim_start_shape(s.drop_first());
    }
}

proof fn lemma_trim_end_shape(s: Seq<char>)
    ensures
        exists|k: int|
            0 <= k <= s.len() && trim_end_ws(s) == s.take(k) && (k == 0 || !is_whitespace(
                s[k - 1],
            )),
    decreases s.len(),
{
    if s.len() > 0 && is_whitespace(s.last()) {
        lemma_trim_end_shape(s.drop_last());
        let k = choose|k: int|
            0 <= k <= s.drop_last().len() && trim_end_ws(s.drop_last()) == s.drop_last().take(k)
                && (k == 0 || !is_whitespace(s.drop_last()[k - 1]));
        assert(s.drop_last().take(k) =~= s.take(k));
    } else {
        assert(s.take(s.len() as int) =~= s);
    }
}

/// Trimming is idempotent: a trimmed string has nothing left to trim.
pub proof fn law_trim_idempotent(s: Seq<char>)
    ensures
        trim_ws(trim_ws(s)) == trim_ws(s),
{
    let u = trim_start_ws(s);
    lemma_trim_start_shape(s);
    lemma_trim_end_shape(u);
    let v = trim_end_ws(u);
    let k = choose|k: int|
        0 <= k <= u.len() && trim_end_ws(u) == u.take(k) && (k == 0 || !is_whitespace(u[k - 1]));
    if v.len() > 0 {
        assert(v[0] == u[0]);
        assert(trim_start_ws(v) == v);
        assert(v.last() == u[k - 1]);
        assert(trim_end_ws(v) == v);
    } else {
        assert(trim_start_ws(v) == v);
        assert(trim_end_ws(v) == v);
    }
}

/// `parts` joined by `sep`.
pub open spec fn join_with(parts: Seq<Seq<char>>, sep: Seq<char>) -> Seq<char>
    decreases parts.len(),
{
    if parts.len() == 0 {
        seq![]
    } else if parts.len() == 1 {
        parts[0]
    } else {
        join_with(parts.drop_last(), sep) + sep + parts.last()
    }
}

/// The texts of a list of strings.
pub open spec fn string_views(v: Seq<String>) -> Seq<Seq<char>> {
    v.map_values(|s: String| s@)
}

/// Strings joined by `sep` (`parts.join(sep)`).
pub fn join_strings(parts: &Vec<String>, sep: &str) -> (r: String)
    ensures
        r@ == join_with(string_views(parts@), sep@),
{
    let ghost views = string_views(parts@);
    let mut out = String::new();
    let mut i: usize = 0;
    assert(views.take(0) =~= Seq::<Seq<char>>::empty());
    while i < parts.len()
        invariant
            views == string_views(parts@),
            i <= parts.len(),
            out@ == join_with(views.take(i as int), sep@),
        decreases parts.len() - i,
    {
        assert(views.take(i + 1).drop_last() =~= views.take(i as int));
        if i > 0 {
            out.append(sep);
        }
        out.append(parts[i].as_str());
        proof {
            if i == 0 {
                assert(views.take(1) =~= seq![views[0]]);
                assert(out@ =~= join_with(views.take(1), sep@));
            }
        }
        i = i + 1;
    }
    assert(views.take(parts.len() as int) =~= views);
    out
}

/// The lowercase form of a string as `str::to_lowercase` gives it (full
/// Unicode lowercase mapping).
pub uninterp spec fn unicode_lowercase(s: Seq<char>) -> Seq<char>;

/// Calls `str::to_lowercase`; the result depends on the string alone. The
/// Unicode case mapping itself is not stated.
#[verifier::external_body]
pub(crate) fn to_lowercase(s: &str) -> (r: String)
    ensures
        r@ == unicode_lowercase(s@),
{
    s.to_lowercase()
}


/// The pieces of `s` between occurrences of `c` (`str::split` with a char).
pub open spec fn split_char(s: Seq<char>, c: char) -> Seq<Seq<char>>
    decreases s.len(),
{
    if s.len() == 0 {
        seq![Seq::<char>::empty()]
    } else if s[0] == c {
        seq![Seq::<char>::empty()] + split_char(s.drop_first(), c)
    } else {
        let rest = split_char(s.drop_first(), c);
        rest.update(0, seq![s[0]] + rest[0])
    }
}

/// Splitting always yields at least one piece.
pub proof fn lemma_split_char_nonempty(s: Seq<char>, c: char)
    ensures
        split_char(s, c).len() >= 1,
    decreases s.len(),
{
    if s.len() > 0 {
        lemma_split_char_nonempty(s.drop_first(), c);
    }
}

/// `s.split(c)`, each piece owned.
pub fn split_on_char(s: &str, c: char) -> (r: Vec<String>)
    ensures
        string_views(r@) == split_char(s@, c),
{
    let v = chars_of(s);
    let mut pieces: Vec<String> = Vec::new();
    let mut start: usize = 0;
    let mut i: usize = 0;
    proof {
        assert(v@.skip(0) =~= v@);
        lemma_split_char_nonempty(v@, c);
        let parts = split_char(v@, c);
        assert(parts.update(0, v@.subrange(0, 0) + parts[0]) =~= parts);
        assert(string_views(pieces@) =~= Seq::<Seq<char>>::empty());
        assert(parts =~= string_views(pieces@) + parts.update(0, v@.subrange(0, 0) + parts[0]));
    }
    while i < v.len()
        invariant
            v@ == s@,
            start <= i <= v.len(),
            split_char(v@, c) == string_views(pieces@) + split_char(v@.skip(i as int), c).update(
                0,
                v@.subrange(start as int, i as int) + split_char(v@.skip(i as int), c)[0],
            ),
        decreases v.len() - i,
    {
        let ghost cur = v@.subrange(start as int, i as int);
        let ghost tail = v@.skip(i as int);
        proof {
            lemma_split_char_nonempty(tail, c);
            lemma_split_char_nonempty(tail.drop_first(), c);
            assert(tail.drop_first() =~= v@.skip(i + 1));
            assert(tail[0] == v@[i as int]);
        }
        if v[i] == c {
            let piece = string_of_range(&v, start, i);
            let ghost old_pieces = pieces@;
            pieces.push(piece);
            proof {
                let rest = split_char(tail.drop_first(), c);
                assert(split_char(tail, c) == seq![Seq::<char>::empty()] + rest);
                assert(v@.subrange(i + 1, i + 1) =~= Seq::<char>::empty());
                assert(rest.update(0, Seq::<char>::empty() + rest[0]) =~= rest);
                assert(string_views(pieces@) =~= string_views(old_pieces).push(cur));
                assert(string_views(old_pieces) + (seq![Seq::<char>::empty()] + rest).update(
                    0,
                    cur + (seq![Seq::<char>::empty()] + rest)[0],
                ) =~= string_views(old_pieces).push(cur) + rest);
            }
            i = i + 1;
            start = i;
        } else {
            proof {
                let rest = split_char(tail.drop_first(), c);
                assert(split_char(tail, c) == rest.update(0, seq![tail[0]] + rest[0]));
                assert(v@.subrange(start as int, i + 1) =~= cur.push(v@[i as int]));
                assert(cur + (seq![tail[0]] + rest[0]) =~= cur.push(v@[i as int]) + rest[0]);
                assert(split_char(tail, c).update(0, cur + split_char(tail, c)[0]) =~= rest.update(
                    0,
                    cur.push(v@[i as int]) + rest[0],
                ));
            }
            i = i + 1;
        }
    }
    let last = string_of_range(&v, start, v.len());
    let ghost old_pieces = pieces@;
    pieces.push(last);
    proof {
        let cur = v@.subrange(start as int, v.len() as int);
        assert(v@.skip(v.len() as int) =~= Seq::<char>::empty());
        assert(split_char(Seq::<char>::empty(), c) == seq![Seq::<char>::empty()]);
        assert(seq![Seq::<char>::empty()].update(0, cur + seq![Seq::<char>::empty()][0]) =~= seq![
            cur,
        ]);
        assert(string_views(pieces@) =~= string_views(old_pieces).push(cur));
        assert(string_views(old_pieces) + seq![cur] =~= string_views(old_pieces).push(cur));
    }
    pieces
}

/// The text of `s` after its first `n` characters.
pub fn skip_chars(s: &str, n: usize) -> (r: String)
    requires
        n <= s@.len(),
    ensures
        r@ == s@.skip(n as int),
{
    let v = chars_of(s);
    let r = string_of_range(&v, n, v.len());
    proof {
        assert(v@.subrange(n as int, v@.len() as int) =~= v@.skip(n as int));
    }
    r
}

/// The words of `s`: its maximal runs of non-whitespace characters, in
/// order (what `str::split_whitespace` yields).
pub open spec fn words(s: Seq<char>) -> Seq<Seq<char>>
    decreases s.len(),
{
    if s.len() == 0 {
        seq![]
    } else {
        let w = words(s.drop_last());
        let c = s.last();
        if is_whitespace(c) {
            w
        } else if s.len() >= 2 && !is_whitespace(s[s.len() - 2]) {
            w.update(w.len() - 1, w.last().push(c))
        } else {
            w.push(seq![c])
        }
    }
}

/// Joining after extending the last part extends the joined text.
proof fn lemma_join_extend_last(w: Seq<Seq<char>>, c: char, sep: Seq<char>)
    requires
        w.len() >= 1,
    ensures
        join_with(w.update(w.len() - 1, w.last().push(c)), sep) == join_with(w, sep).push(c),
{
    let u = w.update(w.len() - 1, w.last().push(c));
    if w.len() == 1 {
        assert(join_with(u, sep) == u[0]);
    } else {
        assert(u.drop_last() =~= w.drop_last());
        assert(u.last() == w.last().push(c));
        assert(join_with(w.drop_last(), sep) + sep + w.last().push(c) =~= (join_with(
            w.drop_last(),
            sep,
        ) + sep + w.last()).push(c));
    }
}

/// A non-empty join is at least as long as its last part.
proof fn lemma_join_len(w: Seq<Seq<char>>, sep: Seq<char>)
    requires
        w.len() >= 1,
    ensures
        join_with(w, sep).len() >= w.last().len(),
{
}

/// Collapsing whitespace is joining the words with single spaces.
proof fn lemma_collapse_is_joined_words(s: Seq<char>)
    ensures
        collapse_scan(s).0 == join_with(words(s), " "@),
        collapse_scan(s).1 == (s.len() > 0 && is_whitespace(s.last()) && words(s).len() > 0),
        s.len() > 0 && !is_whitespace(s.last()) ==> words(s).len() > 0,
        forall|i: int| 0 <= i < words(s).len() ==> (#[trigger] words(s)[i]).len() > 0,
    decreases s.len(),
{
    reveal_strlit(" ");
    assert(" "@ =~= seq![' ']);
    if s.len() > 0 {
        let p = s.drop_last();
        lemma_collapse_is_joined_words(p);
        let w = words(p);
        let out = collapse_scan(p).0;
        let c = s.last();
        if w.len() > 0 {
            lemma_join_len(w, " "@);
        }
        if is_whitespace(c) {
        } else if s.len() >= 2 && !is_whitespace(s[s.len() - 2]) {
            assert(p.last() == s[s.len() - 2]);
            lemma_join_extend_last(w, c, " "@);
            let u = w.update(w.len() - 1, w.last().push(c));
            assert forall|i: int| 0 <= i < u.len() implies (#[trigger] u[i]).len() > 0 by {
                if i < w.len() - 1 {
                    assert(u[i] == w[i]);
                }
            }
        } else {
            if w.len() > 0 {
                assert(p.len() > 0);
                assert(w.push(seq![c]).drop_last() =~= w);
                assert(out.push(' ').push(c) =~= join_with(w, " "@) + " "@ + seq![c]);
            } else {
                assert(join_with(w.push(seq![c]), " "@) == seq![c]);
                assert(out.push(c) =~= seq![c]);
            }
            let u = w.push(seq![c]);
            assert forall|i: int| 0 <= i < u.len() implies (#[trigger] u[i]).len() > 0 by {
                if i < w.len() {
                    assert(u[i] == w[i]);
                }
            }
        }
    }
}

/// A leading whitespace character changes no word.
proof fn lemma_words_prepend_ws(c: char, s: Seq<char>)
    requires
        is_whitespace(c),
    ensures
        words(seq![c] + s) == words(s),
    decreases s.len(),
{
    let t = seq![c] + s;
    if s.len() == 0 {
        assert(t.drop_last() =~= Seq::<char>::empty());
        assert(words(t.drop_last()) == Seq::<Seq<char>>::empty());
        assert(t.last() == c);
    } else {
        assert(t.drop_last() =~= seq![c] + s.drop_last());
        assert(t.last() == s.last());
        lemma_words_prepend_ws(c, s.drop_last());
        if s.len() >= 2 {
            assert(t[t.len() - 2] == s[s.len() - 2]);
        } else {
            assert(t[t.len() - 2] == c);
        }
    }
}

/// Trimming changes no word.
pub proof fn lemma_words_of_trimmed(s: Seq<char>)
    ensures
        words(trim_ws(s)) == words(s),
{
    lemma_words_trim_start(s);
    lemma_words_trim_end(trim_start_ws(s));
}

proof fn lemma_words_trim_start(s: Seq<char>)
    ensures
        words(trim_start_ws(s)) == words(s),
    decreases s.len(),
{
    if s.len() > 0 && is_whitespace(s[0]) {
        lemma_words_trim_start(s.drop_first());
        assert(s =~= seq![s[0]] + s.drop_first());
        lemma_words_prepend_ws(s[0], s.drop_first());
    }
}

proof fn lemma_words_trim_end(s: Seq<char>)
    ensures
        words(trim_end_ws(s)) == words(s),
    decreases s.len(),
{
    if s.len() > 0 && is_whitespace(s.last()) {
        lemma_words_trim_end(s.drop_last());
    }
}

/// The text of a trimmed string is its words joined by single spaces, and
/// it is empty exactly when there is no word.
pub proof fn lemma_collapse_of_trimmed(s: Seq<char>)
    ensures
        collapse_ws(trim_ws(s)) == join_with(words(s), " "@),
        trim_ws(s).len() == 0 <==> words(s).len() == 0,
{
    let u = trim_start_ws(s);
    let t = trim_ws(s);
    lemma_words_of_trimmed(s);
    lemma_collapse_is_joined_words(t);
    lemma_trim_end_shape(u);
    if t.len() > 0 {
        let k = choose|k: int|
            0 <= k <= u.len() && trim_end_ws(u) == u.take(k) && (k == 0 || !is_whitespace(
                u[k - 1],
            ));
        assert(t.last() == u[k - 1]);
    } else {
        assert(t =~= Seq::<char>::empty());
    }
}

} // verus!
