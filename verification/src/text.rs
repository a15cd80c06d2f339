//! Character-level helpers on strings, stated over `Seq<char>` views.

use vstd::prelude::*;

verus! {

/// Position of the first `c` in `s`, or `s.len()` when `s` holds none.
pub open spec fn first_index_of(s: Seq<char>, c: char) -> int
    decreases s.len(),
{
    if s.len() == 0 || s[0] == c {
        0
    } else {
        1 + first_index_of(s.drop_first(), c)
    }
}

/// The `n`-th piece of `s` when it is cut at every `sep` (pieces may be
/// empty; a text without `sep` is its own piece 0).
pub open spec fn nth_field(s: Seq<char>, sep: char, n: nat) -> Option<Seq<char>>
    decreases n,
{
    let i = first_index_of(s, sep);
    if n == 0 {
        Some(s.take(i))
    } else if i >= s.len() {
        None
    } else {
        nth_field(s.skip(i + 1), sep, (n - 1) as nat)
    }
}

/// `needle` occurs in `s` as a contiguous run starting at `at`.
pub open spec fn occurs_at(s: Seq<char>, needle: Seq<char>, at: int) -> bool {
    0 <= at && at + needle.len() <= s.len() && s.subrange(at, at + needle.len()) == needle
}

/// `needle` occurs somewhere in `s`.
pub open spec fn contains_text(s: Seq<char>, needle: Seq<char>) -> bool {
    exists|at: int| occurs_at(s, needle, at)
}

/// `s` without its leading run of `c`.
pub open spec fn strip_leading(s: Seq<char>, c: char) -> Seq<char>
    decreases s.len(),
{
    if s.len() > 0 && s[0] == c {
        strip_leading(s.drop_first(), c)
    } else {
        s
    }
}

/// The text of an optional string.
pub open spec fn opt_text(o: Option<String>) -> Option<Seq<char>> {
    match o {
        Some(s) => Some(s@),
        None => None,
    }
}

/// The text of an optional string slice.
pub open spec fn opt_str(o: Option<&str>) -> Option<Seq<char>> {
    match o {
        Some(s) => Some(s@),
        None => None,
    }
}

/// Whether `char::is_whitespace` holds of `c`.
pub uninterp spec fn is_whitespace(c: char) -> bool;

/// The text that `str::to_lowercase` makes of `s`.
pub uninterp spec fn lowercase(s: Seq<char>) -> Seq<char>;

/// `s` without its leading white space.
pub open spec fn strip_leading_space(s: Seq<char>) -> Seq<char>
    decreases s.len(),
{
    if s.len() > 0 && is_whitespace(s[0]) {
        strip_leading_space(s.drop_first())
    } else {
        s
    }
}

/// `s` without its trailing white space.
pub open spec fn strip_trailing_space(s: Seq<char>) -> Seq<char>
    decreases s.len(),
{
    if s.len() > 0 && is_whitespace(s.last()) {
        strip_trailing_space(s.drop_last())
    } else {
        s
    }
}

/// `s` without white space at either end.
pub open spec fn trimmed(s: Seq<char>) -> Seq<char> {
    strip_trailing_space(strip_leading_space(s))
}

/// Calls `char::is_whitespace`. Trusted: the answer is [`is_whitespace`] of
/// the character.
#[verifier::external_body]
fn char_is_whitespace(c: char) -> (r: bool)
    ensures
        r == is_whitespace(c),
{
    c.is_whitespace()
}

/// Calls `str::to_lowercase`. Trusted: the text handed back is
/// [`lowercase`] of the argument.
#[verifier::external_body]
fn str_to_lowercase(s: &str) -> (r: String)
    ensures
        r@ == lowercase(s@),
{
    s.to_lowercase()
}

/// The first index lies within the text or at its end; no `c` stands before
/// it; and where it lies within the text, `c` stands at it.
pub proof fn lemma_first_index_of(s: Seq<char>, c: char)
    ensures
        0 <= first_index_of(s, c) <= s.len(),
        forall|j: int| 0 <= j < first_index_of(s, c) ==> s[j] != c,
        first_index_of(s, c) < s.len() ==> s[first_index_of(s, c)] == c,
    decreases s.len(),
{
    if s.len() == 0 || s[0] == c {
    } else {
        let t = s.drop_first();
        lemma_first_index_of(t, c);
        assert forall|j: int| 0 <= j < first_index_of(s, c) implies s[j] != c by {
            if j > 0 {
                assert(t[j - 1] == s[j]);
            }
        }
        assert(s[first_index_of(s, c)] == t[first_index_of(t, c)] || first_index_of(s, c)
            >= s.len());
    }
}

/// The first index is the only position that holds `c` with none before it.
pub proof fn lemma_first_index_is(s: Seq<char>, c: char, i: int)
    requires
        0 <= i <= s.len(),
        forall|j: int| 0 <= j < i ==> s[j] != c,
        i < s.len() ==> s[i] == c,
    ensures
        first_index_of(s, c) == i,
{
    lemma_first_index_of(s, c);
    let f = first_index_of(s, c);
    if f < i {
        assert(s[f] != c);
    } else if f > i {
        assert(s[i] != c);
    }
}

/// The characters of `s`, in order.
pub fn chars_of(s: &str) -> (v: Vec<char>)
    ensures
        v@ == s@,
{
    let mut v: Vec<char> = Vec::new();
    for c in it: s.chars()
        invariant
            v@ == it.seq().take(it.index() as int),
            it.seq() == s@,
    {
        v.push(c);
    }
    v
}

/// Whether `a` and `b` hold the same characters.
pub fn same_chars(a: &Vec<char>, b: &Vec<char>) -> (r: bool)
    ensures
        r == (a@ == b@),
{
    if a.len() != b.len() {
        return false;
    }
    let mut i: usize = 0;
    while i < a.len()
        invariant
            i <= a.len(),
            a.len() == b.len(),
            a@.take(i as int) == b@.take(i as int),
        decreases a.len() - i,
    {
        if a[i] != b[i] {
            return false;
        }
        assert(a@.take(i + 1) == a@.take(i as int).push(a@[i as int]));
        assert(b@.take(i + 1) == b@.take(i as int).push(b@[i as int]));
        i += 1;
    }
    assert(a@.take(a.len() as int) == a@);
    assert(b@.take(b.len() as int) == b@);
    true
}

/// Whether `a` and `b` hold the same text.
pub fn same_text(a: &str, b: &str) -> (r: bool)
    ensures
        r == (a@ == b@),
{
    let x = chars_of(a);
    let y = chars_of(b);
    same_chars(&x, &y)
}

/// Whether `needle` stands in `s` at position `at`.
pub fn matches_at(s: &Vec<char>, needle: &Vec<char>, at: usize) -> (r: bool)
    ensures
        r == occurs_at(s@, needle@, at as int),
{
    if needle.len() > s.len() || at > s.len() - needle.len() {
        return false;
    }
    let mut i: usize = 0;
    while i < needle.len()
        invariant
            i <= needle.len(),
            at + needle.len() <= s.len(),
            s@.subrange(at as int, at + i) == needle@.take(i as int),
        decreases needle.len() - i,
    {
        if s[at + i] != needle[i] {
            proof {
                let full = s@.subrange(at as int, at + needle.len());
                assert(full[i as int] == s@[at + i]);
            }
            return false;
        }
        assert(s@.subrange(at as int, at + i + 1) == s@.subrange(at as int, at + i).push(
            s@[at + i],
        ));
        assert(needle@.take(i + 1) == needle@.take(i as int).push(needle@[i as int]));
        i += 1;
    }
    assert(needle@.take(needle.len() as int) == needle@);
    true
}

/// Whether `s` begins with `prefix`.
pub fn starts_with(s: &str, prefix: &str) -> (r: bool)
    ensures
        r == prefix@.is_prefix_of(s@),
{
    let sv = chars_of(s);
    let pv = chars_of(prefix);
    let r = matches_at(&sv, &pv, 0);
    proof {
        if pv@.len() <= sv@.len() {
            assert(sv@.subrange(0, pv@.len() as int) == sv@.take(pv@.len() as int));
        }
    }
    r
}

/// Whether `s` ends with `suffix`.
pub fn ends_with(s: &str, suffix: &str) -> (r: bool)
    ensures
        r == suffix@.is_suffix_of(s@),
{
    let sv = chars_of(s);
    let xv = chars_of(suffix);
    if xv.len() > sv.len() {
        return false;
    }
    let at = sv.len() - xv.len();
    let r = matches_at(&sv, &xv, at);
    proof {
        assert(sv@.subrange(at as int, sv@.len() as int) == sv@.skip(at as int));
    }
    r
}

/// Whether `needle` occurs anywhere in `s`.
pub fn contains(s: &str, needle: &str) -> (r: bool)
    ensures
        r == contains_text(s@, needle@),
{
    let sv = chars_of(s);
    let nv = chars_of(needle);
    if nv.len() > sv.len() {
        assert(forall|at: int| !occurs_at(sv@, nv@, at));
        return false;
    }
    let last = sv.len() - nv.len();
    let mut at: usize = 0;
    loop
        invariant
            at <= last,
            sv@ == s@,
            nv@ == needle@,
            last == sv.len() - nv.len(),
            nv.len() <= sv.len(),
            forall|k: int| 0 <= k < at ==> !occurs_at(sv@, nv@, k),
        decreases last - at,
    {
        if matches_at(&sv, &nv, at) {
            assert(occurs_at(sv@, nv@, at as int));
            return true;
        }
        if at == last {
            assert(forall|k: int| !occurs_at(sv@, nv@, k));
            return false;
        }
        at += 1;
    }
}

/// The piece of `s` with number `n` when `s` is cut at every `sep`.
pub fn field(s: &str, sep: char, n: usize) -> (r: Option<String>)
    ensures
        r is Some == nth_field(s@, sep, n as nat) is Some,
        r matches Some(f) ==> nth_field(s@, sep, n as nat) == Some(f@),
{
    let sv = chars_of(s);
    let mut start: usize = 0;
    let mut k: usize = 0;
    assert(s@.skip(0) == s@);
    loop
        invariant
            sv@ == s@,
            start <= sv.len(),
            k <= n,
            nth_field(s@, sep, n as nat) == nth_field(s@.skip(start as int), sep, (n - k) as nat),
        decreases sv.len() - start, n - k,
    {
        let mut end: usize = start;
        while end < sv.len() && sv[end] != sep
            invariant
                start <= end <= sv.len(),
                forall|j: int| start <= j < end ==> sv@[j] != sep,
            decreases sv.len() - end,
        {
            end += 1;
        }
        proof {
            let rest = s@.skip(start as int);
            assert forall|j: int| 0 <= j < end - start implies rest[j] != sep by {
                assert(rest[j] == sv@[start + j]);
            }
            lemma_first_index_is(rest, sep, end - start);
        }
        if k == n {
            let piece = s.substring_char(start, end);
            assert(piece@ == s@.skip(start as int).take(end - start));
            return Some(String::from_str(piece));
        }
        if end >= sv.len() {
            return None;
        }
        assert(s@.skip(start as int).skip(end - start + 1) == s@.skip(end + 1));
        start = end + 1;
        k += 1;
    }
}

/// `s` without its leading run of `c`.
pub fn trim_leading(s: &str, c: char) -> (r: String)
    ensures
        r@ == strip_leading(s@, c),
{
    let sv = chars_of(s);
    let mut start: usize = 0;
    assert(s@.skip(0) == s@);
    while start < sv.len() && sv[start] == c
        invariant
            start <= sv.len(),
            sv@ == s@,
            strip_leading(s@, c) == strip_leading(s@.skip(start as int), c),
        decreases sv.len() - start,
    {
        assert(s@.skip(start as int).drop_first() == s@.skip(start + 1));
        start += 1;
    }
    let piece = s.substring_char(start, sv.len());
    assert(piece@ == s@.skip(start as int));
    String::from_str(piece)
}

/// `s` in lower case.
pub fn to_lowercase(s: &str) -> (r: String)
    ensures
        r@ == lowercase(s@),
{
    str_to_lowercase(s)
}

/// `s` without white space at either end.
pub fn trim(s: &str) -> (r: String)
    ensures
        r@ == trimmed(s@),
{
    let sv = chars_of(s);
    let mut start: usize = 0;
    assert(s@.skip(0) == s@);
    while start < sv.len() && char_is_whitespace(sv[start])
        invariant
            start <= sv.len(),
            sv@ == s@,
            strip_leading_space(s@) == strip_leading_space(s@.skip(start as int)),
        decreases sv.len() - start,
    {
        assert(s@.skip(start as int).drop_first() == s@.skip(start + 1));
        start += 1;
    }
    let ghost body = s@.skip(start as int);
    assert(strip_leading_space(s@) == body);
    let mut end: usize = sv.len();
    assert(body.take(end - start) == body);
    while end > start && char_is_whitespace(sv[end - 1])
        invariant
            start <= end <= sv.len(),
            sv@ == s@,
            body == s@.skip(start as int),
            strip_trailing_space(body) == strip_trailing_space(body.take(end - start)),
        decreases end,
    {
        assert(body.take(end - start).last() == sv@[end - 1]);
        assert(body.take(end - start).drop_last() == body.take(end - 1 - start));
        end -= 1;
    }
    proof {
        let kept = body.take(end - start);
        if end > start {
            assert(kept.last() == sv@[end - 1]);
        }
        assert(strip_trailing_space(kept) == kept);
        assert(kept == s@.subrange(start as int, end as int));
    }
    let piece = s.substring_char(start, end);
    String::from_str(piece)
}

} // verus!
