//! Character-level text helpers, each stated over the `Seq<char>` view of its input.

use vstd::prelude::*;

verus! {

// ---------------------------------------------------------------------------
// Whitespace and trimming
// ---------------------------------------------------------------------------

/// The Unicode `White_Space` property (what `char::is_whitespace` tests).
pub open spec fn spec_is_whitespace(c: char) -> bool {
    ||| ('\u{9}' <= c && c <= '\u{d}')
    ||| c == ' '
    ||| c == '\u{85}'
    ||| c == '\u{a0}'
    ||| c == '\u{1680}'
    ||| ('\u{2000}' <= c && c <= '\u{200a}')
    ||| c == '\u{2028}'
    ||| c == '\u{2029}'
    ||| c == '\u{202f}'
    ||| c == '\u{205f}'
    ||| c == '\u{3000}'
}

pub fn is_whitespace(c: char) -> (r: bool)
    ensures
        r == spec_is_whitespace(c),
{
    ('\u{9}' <= c && c <= '\u{d}') || c == ' ' || c == '\u{85}' || c == '\u{a0}' || c
        == '\u{1680}' || ('\u{2000}' <= c && c <= '\u{200a}') || c == '\u{2028}' || c
        == '\u{2029}' || c == '\u{202f}' || c == '\u{205f}' || c == '\u{3000}'
}

/// `s` with its leading whitespace removed.
pub open spec fn spec_trim_start(s: Seq<char>) -> Seq<char>
    decreases s.len(),
{
    if s.len() > 0 && spec_is_whitespace(s[0]) {
        spec_trim_start(s.drop_first())
    } else {
        s
    }
}

/// `s` with its trailing whitespace removed.
pub open spec fn spec_trim_end(s: Seq<char>) -> Seq<char>
    decreases s.len(),
{
    if s.len() > 0 && spec_is_whitespace(s.last()) {
        spec_trim_end(s.drop_last())
    } else {
        s
    }
}

/// `s` with leading and trailing whitespace removed (what `str::trim` gives).
pub open spec fn spec_trim(s: Seq<char>) -> Seq<char> {
    spec_trim_end(spec_trim_start(s))
}

proof fn lemma_trim_start_skip(s: Seq<char>, k: int)
    requires
        0 <= k <= s.len(),
        forall|j: int| 0 <= j < k ==> spec_is_whitespace(#[trigger] s[j]),
    ensures
        spec_trim_start(s) == spec_trim_start(s.subrange(k, s.len() as int)),
    decreases k,
{
    if k > 0 {
        assert(s.drop_first().subrange(k - 1, s.drop_first().len() as int) =~= s.subrange(
            k,
            s.len() as int,
        ));
        lemma_trim_start_skip(s.drop_first(), k - 1);
    } else {
        assert(s.subrange(0, s.len() as int) =~= s);
    }
}

proof fn lemma_trim_end_take(s: Seq<char>, k: int)
    requires
        0 <= k <= s.len(),
        forall|j: int| k <= j < s.len() ==> spec_is_whitespace(#[trigger] s[j]),
    ensures
        spec_trim_end(s) == spec_trim_end(s.subrange(0, k)),
    decreases s.len() - k,
{
    if k < s.len() {
        assert(s.drop_last().subrange(0, k) =~= s.subrange(0, k));
        lemma_trim_end_take(s.drop_last(), k);
    } else {
        assert(s.subrange(0, s.len() as int) =~= s);
    }
}

/// The trimmed copy of `s`.
pub fn trim_chars(s: &Vec<char>) -> (r: Vec<char>)
    ensures
        r@ == spec_trim(s@),
{
    let n = s.len();
    let mut start: usize = 0;
    while start < n && is_whitespace(s[start])
        invariant
            n == s.len(),
            start <= n,
            forall|j: int| 0 <= j < start ==> spec_is_whitespace(#[trigger] s@[j]),
        decreases n - start,
    {
        start = start + 1;
    }
    let ghost rest = s@.subrange(start as int, n as int);
    proof {
        lemma_trim_start_skip(s@, start as int);
    }
    let mut end: usize = n;
    while end > start && is_whitespace(s[end - 1])
        invariant
            n == s.len(),
            start <= end <= n,
            forall|j: int| end <= j < n ==> spec_is_whitespace(#[trigger] s@[j]),
        decreases end,
    {
        end = end - 1;
    }
    proof {
        assert(spec_trim_start(rest) == rest);
        assert forall|j: int| end - start <= j < rest.len() implies spec_is_whitespace(
            #[trigger] rest[j],
        ) by {
            assert(rest[j] == s@[j + start]);
        }
        lemma_trim_end_take(rest, end - start);
        assert(rest.subrange(0, end - start) =~= s@.subrange(start as int, end as int));
    }
    let mut r: Vec<char> = Vec::new();
    let mut i = start;
    while i < end
        invariant
            n == s.len(),
            start <= i <= end <= n,
            r@ =~= s@.subrange(start as int, i as int),
        decreases end - i,
    {
        r.push(s[i]);
        i = i + 1;
    }
    r
}

// ---------------------------------------------------------------------------
// ASCII case mapping
// ---------------------------------------------------------------------------

/// ASCII lower-casing of one character (`char::to_ascii_lowercase`).
pub open spec fn spec_lower_char(c: char) -> char {
    if 'A' <= c && c <= 'Z' {
        ((c as u32) + 32) as char
    } else {
        c
    }
}

/// ASCII upper-casing of one character (`char::to_ascii_uppercase`).
pub open spec fn spec_upper_char(c: char) -> char {
    if 'a' <= c && c <= 'z' {
        ((c as u32) - 32) as char
    } else {
        c
    }
}

pub open spec fn spec_lower(s: Seq<char>) -> Seq<char> {
    s.map_values(|c: char| spec_lower_char(c))
}

pub open spec fn spec_upper(s: Seq<char>) -> Seq<char> {
    s.map_values(|c: char| spec_upper_char(c))
}

pub fn lower_char(c: char) -> (r: char)
    ensures
        r == spec_lower_char(c),
{
    if 'A' <= c && c <= 'Z' {
        let v: u8 = (c as u8) + 32;
        v as char
    } else {
        c
    }
}

pub fn upper_char(c: char) -> (r: char)
    ensures
        r == spec_upper_char(c),
{
    if 'a' <= c && c <= 'z' {
        let v: u8 = (c as u8) - 32;
        v as char
    } else {
        c
    }
}

/// The ASCII-lowercased copy of `s` (`str::to_ascii_lowercase`).
pub fn lower_chars(s: &Vec<char>) -> (r: Vec<char>)
    ensures
        r@ == spec_lower(s@),
{
    let mut r: Vec<char> = Vec::new();
    let mut i: usize = 0;
    while i < s.len()
        invariant
            i <= s.len(),
            r@ =~= spec_lower(s@.subrange(0, i as int)),
        decreases s.len() - i,
    {
        r.push(lower_char(s[i]));
        i = i + 1;
    }
    assert(s@.subrange(0, s@.len() as int) =~= s@);
    r
}

/// The ASCII-uppercased copy of `s` (`str::to_ascii_uppercase`).
pub fn upper_chars(s: &Vec<char>) -> (r: Vec<char>)
    ensures
        r@ == spec_upper(s@),
{
    let mut r: Vec<char> = Vec::new();
    let mut i: usize = 0;
    while i < s.len()
        invariant
            i <= s.len(),
            r@ =~= spec_upper(s@.subrange(0, i as int)),
        decreases s.len() - i,
    {
        r.push(upper_char(s[i]));
        i = i + 1;
    }
    assert(s@.subrange(0, s@.len() as int) =~= s@);
    r
}

// ---------------------------------------------------------------------------
// Prefix, suffix and substring tests
// ---------------------------------------------------------------------------

pub open spec fn spec_starts_with(s: Seq<char>, p: Seq<char>) -> bool {
    p.len() <= s.len() && s.subrange(0, p.len() as int) == p
}

pub open spec fn spec_ends_with(s: Seq<char>, p: Seq<char>) -> bool {
    p.len() <= s.len() && s.subrange(s.len() - p.len(), s.len() as int) == p
}

pub open spec fn spec_occurs_at(s: Seq<char>, p: Seq<char>, i: int) -> bool {
    0 <= i && i + p.len() <= s.len() && s.subrange(i, i + p.len()) == p
}

pub open spec fn spec_contains(s: Seq<char>, p: Seq<char>) -> bool {
    exists|i: int| spec_occurs_at(s, p, i)
}

/// Whether `p` occurs in `s` starting at position `at`.
fn occurs_at(s: &Vec<char>, p: &Vec<char>, at: usize) -> (r: bool)
    requires
        at <= s.len(),
    ensures
        r == spec_occurs_at(s@, p@, at as int),
{
    if p.len() > s.len() - at {
        return false;
    }
    let mut j: usize = 0;
    while j < p.len()
        invariant
            at + p.len() <= s.len(),
            j <= p.len(),
            forall|k: int| 0 <= k < j ==> s@[at + k] == p@[k],
        decreases p.len() - j,
    {
        if s[at + j] != p[j] {
            assert(s@.subrange(at as int, at + p.len())[j as int] != p@[j as int]);
            return false;
        }
        j = j + 1;
    }
    assert(s@.subrange(at as int, at + p.len()) =~= p@);
    true
}

/// `str::starts_with` on character vectors.
pub fn starts_with(s: &Vec<char>, p: &Vec<char>) -> (r: bool)
    ensures
        r == spec_starts_with(s@, p@),
{
    occurs_at(s, p, 0)
}

/// `str::ends_with` on character vectors.
pub fn ends_with(s: &Vec<char>, p: &Vec<char>) -> (r: bool)
    ensures
        r == spec_ends_with(s@, p@),
{
    if p.len() > s.len() {
        false
    } else {
        occurs_at(s, p, s.len() - p.len())
    }
}

/// `str::contains` on character vectors.
pub fn contains(s: &Vec<char>, p: &Vec<char>) -> (r: bool)
    ensures
        r == spec_contains(s@, p@),
{
    if p.len() > s.len() {
        return false;
    }
    let last = s.len() - p.len();
    let mut i: usize = 0;
    loop
        invariant
            last + p.len() == s.len(),
            i <= last,
            forall|k: int| 0 <= k < i ==> !spec_occurs_at(s@, p@, k),
        ensures
            forall|k: int| 0 <= k <= last ==> !spec_occurs_at(s@, p@, k),
        decreases last - i,
    {
        if occurs_at(s, p, i) {
            return true;
        }
        if i == last {
            break;
        }
        i = i + 1;
    }
    assert forall|k: int| !spec_occurs_at(s@, p@, k) by {
        if 0 <= k && k + p@.len() <= s@.len() {
            assert(k <= last);
        }
    }
    false
}

// ---------------------------------------------------------------------------
// Conversions between `&str`, `String` and `Vec<char>`
// ---------------------------------------------------------------------------

/// The characters of `s`.
pub fn str_chars(s: &str) -> (r: Vec<char>)
    ensures
        r@ == s@,
{
    let n = s.unicode_len();
    let mut r: Vec<char> = Vec::new();
    let mut it = s.chars();
    let mut i: usize = 0;
    proof {
        broadcast use vstd::string::group_string_axioms;
    }
    while i < n
        invariant
            n == s@.len(),
            i <= n,
            r@ =~= s@.subrange(0, i as int),
            vstd::std_specs::iter::IteratorSpec::obeys_prophetic_iter_laws(&it),
            vstd::std_specs::iter::IteratorSpec::remaining(&it) == s@.subrange(i as int, n as int),
        decreases n - i,
    {
        proof {
            broadcast use vstd::string::group_string_axioms;
        }
        let c = it.next();
        match c {
            Some(ch) => {
                assert(ch == s@[i as int]);
                r.push(ch);
            },
            None => {
                assert(false);
            },
        }
        assert(s@.subrange(i as int, n as int).drop_first() =~= s@.subrange(i + 1, n as int));
        i = i + 1;
    }
    assert(s@.subrange(0, n as int) =~= s@);
    r
}

/// Appends one character with `String::push`. Trusted: the contract claims that the
/// text afterwards is the text before followed by `c`, as std documents.
#[verifier::external_body]
fn push_char(s: &mut String, c: char)
    ensures
        final(s)@ == old(s)@.push(c),
{
    s.push(c);
}

/// A `String` holding the characters of `v`.
pub fn chars_to_string(v: &Vec<char>) -> (r: String)
    ensures
        r@ == v@,
{
    let mut r = String::new();
    let mut i: usize = 0;
    while i < v.len()
        invariant
            i <= v.len(),
            r@ =~= v@.subrange(0, i as int),
        decreases v.len() - i,
    {
        push_char(&mut r, v[i]);
        i = i + 1;
    }
    assert(v@.subrange(0, v@.len() as int) =~= v@);
    r
}

/// Appends the characters of `v` to `s`.
pub fn push_chars(s: &mut String, v: &Vec<char>)
    ensures
        final(s)@ == old(s)@ + v@,
{
    let mut i: usize = 0;
    while i < v.len()
        invariant
            i <= v.len(),
            s@ =~= old(s)@ + v@.subrange(0, i as int),
        decreases v.len() - i,
    {
        push_char(s, v[i]);
        i = i + 1;
    }
    assert(v@.subrange(0, v@.len() as int) =~= v@);
}

/// Appends the characters of `t` to `s`.
pub fn push_str(s: &mut String, t: &str)
    ensures
        final(s)@ == old(s)@ + t@,
{
    let v = str_chars(t);
    push_chars(s, &v);
}

/// Whether the characters of `s` are those of `t`.
pub fn eq_str(s: &Vec<char>, t: &str) -> (r: bool)
    ensures
        r == (s@ == t@),
{
    let tv = str_chars(t);
    if s.len() != tv.len() {
        return false;
    }
    let r = starts_with(s, &tv);
    proof {
        assert(s@.subrange(0, s@.len() as int) =~= s@);
        if r {
            assert(s@ =~= tv@.subrange(0, tv@.len() as int));
            assert(tv@.subrange(0, tv@.len() as int) =~= tv@);
        }
    }
    r
}

/// `str::starts_with` with a literal prefix.
pub fn starts_with_str(s: &Vec<char>, p: &str) -> (r: bool)
    ensures
        r == spec_starts_with(s@, p@),
{
    let pv = str_chars(p);
    starts_with(s, &pv)
}

/// `str::contains` with a literal needle.
pub fn contains_str(s: &Vec<char>, p: &str) -> (r: bool)
    ensures
        r == spec_contains(s@, p@),
{
    let pv = str_chars(p);
    contains(s, &pv)
}

/// A `String` holding the characters of `t`.
pub fn string_of(t: &str) -> (r: String)
    ensures
        r@ == t@,
{
    let mut s = String::new();
    push_str(&mut s, t);
    s
}

} // verus!
