//! Character-level text helpers: ASCII case folding, substring containment
//! and suffix tests, stated over `Seq<char>`.

use vstd::prelude::*;

verus! {

/// The ASCII uppercase fold of one character; characters outside `'a'..='z'`
/// are unchanged.
pub open spec fn upper_char_spec(c: char) -> char {
    if 'a' <= c && c <= 'z' {
        ((c as int) - 32) as char
    } else {
        c
    }
}

/// The ASCII uppercase fold of a character sequence.
pub open spec fn upper_seq(s: Seq<char>) -> Seq<char> {
    s.map_values(|c: char| upper_char_spec(c))
}

/// `needle` occurs in `hay` starting at position `i`.
pub open spec fn match_at(hay: Seq<char>, needle: Seq<char>, i: int) -> bool {
    &&& 0 <= i
    &&& i + needle.len() <= hay.len()
    &&& forall|j: int| 0 <= j < needle.len() ==> hay[i + j] == #[trigger] needle[j]
}

/// `needle` occurs somewhere in `hay` as a contiguous substring.
pub open spec fn contains_substr(hay: Seq<char>, needle: Seq<char>) -> bool {
    exists|i: int| match_at(hay, needle, i)
}

/// `suffix` is a suffix of `s`.
pub open spec fn is_suffix_of(suffix: Seq<char>, s: Seq<char>) -> bool {
    &&& suffix.len() <= s.len()
    &&& forall|j: int| 0 <= j < suffix.len() ==> s[s.len() - suffix.len() + j] == #[trigger] suffix[j]
}

/// The empty string is a substring of every string.
pub proof fn lemma_contains_empty(s: Seq<char>)
    ensures
        contains_substr(s, Seq::<char>::empty()),
{
    assert(match_at(s, Seq::<char>::empty(), 0));
}

/// Case folding distributes over concatenation.
pub proof fn lemma_upper_seq_add(a: Seq<char>, b: Seq<char>)
    ensures
        upper_seq(a + b) == upper_seq(a) + upper_seq(b),
{
    assert(upper_seq(a + b) =~= upper_seq(a) + upper_seq(b));
}

/// A string that contains `a + b` contains `a`.
pub proof fn lemma_contains_substr_prefix(s: Seq<char>, a: Seq<char>, b: Seq<char>)
    requires
        contains_substr(s, a + b),
    ensures
        contains_substr(s, a),
{
    let i = choose|i: int| match_at(s, a + b, i);
    assert forall|j: int| 0 <= j < a.len() implies s[i + j] == #[trigger] a[j] by {
        assert((a + b)[j] == a[j]);
    }
    assert(match_at(s, a, i));
}

/// Substring containment is transitive.
pub proof fn lemma_contains_substr_trans(s: Seq<char>, b: Seq<char>, a: Seq<char>)
    requires
        contains_substr(s, b),
        contains_substr(b, a),
    ensures
        contains_substr(s, a),
{
    let i = choose|i: int| match_at(s, b, i);
    let k = choose|k: int| match_at(b, a, k);
    assert forall|j: int| 0 <= j < a.len() implies s[(i + k) + j] == #[trigger] a[j] by {
        assert(b[k + j] == a[j]);
        assert(s[i + (k + j)] == b[k + j]);
    }
    assert(match_at(s, a, i + k));
}

/// A concatenation ends in its second operand.
pub proof fn lemma_suffix_of_concat(a: Seq<char>, b: Seq<char>)
    ensures
        is_suffix_of(b, a + b),
{
    assert forall|j: int| 0 <= j < b.len() implies (a + b)[(a + b).len() - b.len() + j]
        == #[trigger] b[j] by {
        assert((a + b)[a.len() + j] == b[j]);
    }
}

/// Executable ASCII uppercase fold of one character.
pub fn upper_char(c: char) -> (r: char)
    ensures
        r == upper_char_spec(c),
{
    if 'a' <= c && c <= 'z' {
        let b = c as u8;
        (b - 32) as char
    } else {
        c
    }
}

/// The characters of `s`, ASCII-uppercased, as a vector.
pub fn to_upper_chars(s: &str) -> (r: Vec<char>)
    ensures
        r@ == upper_seq(s@),
{
    let n = s.unicode_len();
    let mut r: Vec<char> = Vec::new();
    let mut i: usize = 0;
    while i < n
        invariant
            n == s@.len(),
            0 <= i <= n,
            r@.len() == i,
            forall|k: int| 0 <= k < i ==> r@[k] == upper_char_spec(#[trigger] s@[k]),
        decreases n - i,
    {
        let c = s.get_char(i);
        r.push(upper_char(c));
        i += 1;
    }
    proof {
        assert(r@ =~= upper_seq(s@));
    }
    r
}

/// A copy of `v` with every character ASCII-uppercased.
pub fn upper_vec(v: &Vec<char>) -> (r: Vec<char>)
    ensures
        r@ == upper_seq(v@),
{
    let mut r: Vec<char> = Vec::new();
    let mut i: usize = 0;
    while i < v.len()
        invariant
            0 <= i <= v@.len(),
            r@.len() == i,
            forall|k: int| 0 <= k < i ==> r@[k] == upper_char_spec(#[trigger] v@[k]),
        decreases v@.len() - i,
    {
        r.push(upper_char(v[i]));
        i += 1;
    }
    proof {
        assert(r@ =~= upper_seq(v@));
    }
    r
}

/// Whether `needle` occurs in `hay` starting exactly at position `i`.
fn match_at_exec(hay: &Vec<char>, needle: &Vec<char>, i: usize) -> (r: bool)
    requires
        i + needle@.len() <= hay@.len(),
    ensures
        r == match_at(hay@, needle@, i as int),
{
    let hay_len: usize = hay.len();
    let needle_len: usize = needle.len();
    let mut j: usize = 0;
    while j < needle_len
        invariant
            hay_len == hay@.len(),
            needle_len == needle@.len(),
            0 <= j <= needle@.len(),
            i + needle@.len() <= hay@.len(),
            forall|k: int| 0 <= k < j ==> hay@[i + k] == #[trigger] needle@[k],
        decreases needle@.len() - j,
    {
        if hay[i + j] != needle[j] {
            assert(!match_at(hay@, needle@, i as int));
            return false;
        }
        j += 1;
    }
    true
}

/// Executable substring containment over character vectors.
pub fn contains_chars(hay: &Vec<char>, needle: &Vec<char>) -> (r: bool)
    ensures
        r == contains_substr(hay@, needle@),
{
    if needle.len() == 0 {
        proof {
            lemma_contains_empty(hay@);
            assert(needle@ =~= Seq::<char>::empty());
        }
        return true;
    }
    if needle.len() > hay.len() {
        assert forall|k: int| !match_at(hay@, needle@, k) by {}
        return false;
    }
    let end: usize = hay.len() - needle.len();
    let mut i: usize = 0;
    while i <= end
        invariant
            1 <= needle@.len() <= hay@.len(),
            end == hay@.len() - needle@.len(),
            end < hay@.len(),
            hay@.len() <= usize::MAX,
            0 <= i <= end + 1,
            forall|k: int| 0 <= k < i ==> !match_at(hay@, needle@, k),
        decreases end + 1 - i,
    {
        if match_at_exec(hay, needle, i) {
            assert(contains_substr(hay@, needle@));
            return true;
        }
        i += 1;
    }
    assert forall|k: int| !match_at(hay@, needle@, k) by {
        if 0 <= k <= end {
            assert(!match_at(hay@, needle@, k));
        }
    }
    false
}

} // verus!
