//! Helpers on strings: equality, substring search and the first word.
//!
//! Contracts speak of a string through its view, the sequence of its
//! characters.

use vstd::prelude::*;
use vstd::string::*;
use vstd::utf8::*;

verus! {

/// The view of each string of a list.
pub open spec fn views(list: Seq<String>) -> Seq<Seq<char>> {
    list.map_values(|s: String| s@)
}

/// `needle` stands in `hay` at position `at`.
pub open spec fn occurs_at(needle: Seq<char>, hay: Seq<char>, at: int) -> bool {
    &&& 0 <= at
    &&& at + needle.len() <= hay.len()
    &&& hay.subrange(at, at + needle.len()) == needle
}

/// `needle` stands somewhere in `hay`. The empty string stands in every string.
pub open spec fn is_substring(needle: Seq<char>, hay: Seq<char>) -> bool {
    exists|at: int| occurs_at(needle, hay, at)
}

/// The characters with the Unicode property `White_Space`.
pub open spec fn is_whitespace_char(c: char) -> bool {
    let u = c as u32;
    ||| 0x09 <= u <= 0x0D
    ||| u == 0x20
    ||| u == 0x85
    ||| u == 0xA0
    ||| u == 0x1680
    ||| 0x2000 <= u <= 0x200A
    ||| u == 0x2028
    ||| u == 0x2029
    ||| u == 0x202F
    ||| u == 0x205F
    ||| u == 0x3000
}

/// The first position at or after `from` whose character is whitespace if
/// `whitespace` is false, or is not whitespace if `whitespace` is true; the
/// length of `s` where there is none.
pub open spec fn run_end(s: Seq<char>, from: int, whitespace: bool) -> int
    decreases s.len() - from,
{
    if 0 <= from < s.len() && is_whitespace_char(s[from]) == whitespace {
        run_end(s, from + 1, whitespace)
    } else {
        from
    }
}

/// Where the first word of `s` begins: after its leading whitespace.
pub open spec fn first_word_start(s: Seq<char>) -> int {
    run_end(s, 0, true)
}

/// Where the first word of `s` ends.
pub open spec fn first_word_end(s: Seq<char>) -> int {
    run_end(s, first_word_start(s), false)
}

/// The first whitespace-separated word of `s`; empty where `s` holds only
/// whitespace.
pub open spec fn first_word(s: Seq<char>) -> Seq<char> {
    s.subrange(first_word_start(s), first_word_end(s))
}

pub proof fn lemma_run_end_bounds(s: Seq<char>, from: int, whitespace: bool)
    requires
        0 <= from <= s.len(),
    ensures
        from <= run_end(s, from, whitespace) <= s.len(),
        forall|i: int|
            from <= i < run_end(s, from, whitespace) ==> is_whitespace_char(#[trigger] s[i])
                == whitespace,
        run_end(s, from, whitespace) < s.len() ==> is_whitespace_char(
            s[run_end(s, from, whitespace)],
        ) != whitespace,
    decreases s.len() - from,
{
    if from < s.len() && is_whitespace_char(s[from]) == whitespace {
        lemma_run_end_bounds(s, from + 1, whitespace);
    }
}

/// The first word holds no whitespace, and nothing but whitespace stands
/// before it.
pub proof fn lemma_first_word(s: Seq<char>)
    ensures
        0 <= first_word_start(s) <= first_word_end(s) <= s.len(),
        forall|i: int| 0 <= i < first_word_start(s) ==> is_whitespace_char(#[trigger] s[i]),
        forall|i: int|
            0 <= i < first_word(s).len() ==> !is_whitespace_char(#[trigger] first_word(s)[i]),
        first_word_end(s) < s.len() ==> is_whitespace_char(s[first_word_end(s)]),
        first_word(s).len() == 0 ==> first_word_start(s) == s.len(),
{
    lemma_run_end_bounds(s, 0, true);
    lemma_run_end_bounds(s, first_word_start(s), false);
}

pub fn is_whitespace(c: char) -> (b: bool)
    ensures
        b == is_whitespace_char(c),
{
    let u: u32 = c as u32;
    (0x09 <= u && u <= 0x0D) || u == 0x20 || u == 0x85 || u == 0xA0 || u == 0x1680 || (0x2000
        <= u && u <= 0x200A) || u == 0x2028 || u == 0x2029 || u == 0x202F || u == 0x205F || u
        == 0x3000
}

/// Whether two strings hold the same characters.
pub fn str_eq(a: &str, b: &str) -> (same: bool)
    ensures
        same == (a@ == b@),
{
    let x = a.as_bytes();
    let y = b.as_bytes();
    proof {
        encode_utf8_decode_utf8(a@);
        encode_utf8_decode_utf8(b@);
    }
    if x.len() != y.len() {
        return false;
    }
    let mut i: usize = 0;
    while i < x.len()
        invariant
            i <= x@.len(),
            x@.len() == y@.len(),
            x@ == encode_utf8(a@),
            y@ == encode_utf8(b@),
            forall|j: int| 0 <= j < i ==> x@[j] == y@[j],
        decreases x@.len() - i,
    {
        if x[i] != y[i] {
            return false;
        }
        i = i + 1;
    }
    assert(x@ =~= y@);
    true
}

/// The characters of `s`, one by one.
pub fn to_chars(s: &str) -> (v: Vec<char>)
    ensures
        v@ == s@,
{
    let mut v: Vec<char> = Vec::new();
    for c in it: s.chars()
        invariant
            it.seq() == s@,
            v@ == s@.take(it.index() as int),
    {
        v.push(c);
        assert(v@ =~= s@.take(it.index() + 1));
    }
    assert(v@ =~= s@);
    v
}

/// Whether `needle` stands in `hay` at position `at`.
fn matches_at(needle: &Vec<char>, hay: &Vec<char>, at: usize) -> (b: bool)
    requires
        at + needle@.len() <= hay@.len(),
    ensures
        b == occurs_at(needle@, hay@, at as int),
{
    let hay_len = hay.len();
    let mut k: usize = 0;
    while k < needle.len()
        invariant
            k <= needle@.len(),
            at + needle@.len() <= hay@.len() == hay_len,
            forall|j: int| 0 <= j < k ==> hay@[at + j] == needle@[j],
        decreases needle@.len() - k,
    {
        if hay[at + k] != needle[k] {
            assert(hay@.subrange(at as int, at + needle@.len())[k as int] != needle@[k as int]);
            return false;
        }
        k = k + 1;
    }
    assert(hay@.subrange(at as int, at + needle@.len()) =~= needle@);
    true
}

/// Whether `needle` stands somewhere in `hay`.
pub fn contains(hay: &str, needle: &str) -> (found: bool)
    ensures
        found == is_substring(needle@, hay@),
{
    let h = to_chars(hay);
    let n = to_chars(needle);
    if n.len() > h.len() {
        return false;
    }
    let last: usize = h.len() - n.len();
    let mut at: usize = 0;
    loop
        invariant
            at <= last,
            last == h@.len() - n@.len(),
            h@ == hay@,
            n@ == needle@,
            forall|j: int| 0 <= j < at ==> !occurs_at(n@, h@, j),
        decreases last - at,
    {
        if matches_at(&n, &h, at) {
            return true;
        }
        if at == last {
            return false;
        }
        at = at + 1;
    }
}

/// Whether one of the strings of `list` equals `item`.
pub fn list_contains(list: &Vec<String>, item: &str) -> (found: bool)
    ensures
        found == views(list@).contains(item@),
{
    let mut i: usize = 0;
    while i < list.len()
        invariant
            i <= list@.len(),
            forall|j: int| 0 <= j < i ==> views(list@)[j] != item@,
        decreases list@.len() - i,
    {
        if str_eq(list[i].as_str(), item) {
            assert(views(list@)[i as int] == item@);
            return true;
        }
        i = i + 1;
    }
    false
}

/// The first whitespace-separated word of `s`.
pub fn first_word_of(s: &str) -> (word: String)
    ensures
        word@ == first_word(s@),
        forall|i: int| 0 <= i < word@.len() ==> !is_whitespace_char(#[trigger] word@[i]),
{
    proof {
        lemma_first_word(s@);
    }
    let chars = to_chars(s);
    let mut start: usize = 0;
    while start < chars.len() && is_whitespace(chars[start])
        invariant
            start <= chars@.len(),
            run_end(chars@, 0, true) == run_end(chars@, start as int, true),
        decreases chars@.len() - start,
    {
        start = start + 1;
    }
    let mut end: usize = start;
    while end < chars.len() && !is_whitespace(chars[end])
        invariant
            start <= end <= chars@.len(),
            run_end(chars@, start as int, false) == run_end(chars@, end as int, false),
        decreases chars@.len() - end,
    {
        end = end + 1;
    }
    s.substring_char(start, end).to_string()
}

} // verus!
