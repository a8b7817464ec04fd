//! Character-level helpers on strings, with their specifications.

use vstd::prelude::*;

verus! {

/// The characters of `s`, in order.
pub fn chars_of(s: &str) -> (v: Vec<char>)
    ensures
        v@ == s@,
{
    let mut v: Vec<char> = Vec::new();
    for c in it: s.chars()
        invariant
            v.len() == it.index(),
            it.seq() == s@,
            forall|i: int| 0 <= i < v.len() ==> v@[i] == it.seq()[i],
    {
        v.push(c);
    }
    v
}

/// Collects characters into a `String` (std's `FromIterator<&char>` for `String`).
/// Trusted: the string holds exactly the given characters, in order.
#[verifier::external_body]
pub(crate) fn string_from_chars(v: &[char]) -> (s: String)
    ensures
        s@ == v@,
{
    String::from_iter(v)
}

/// Decodes bytes as UTF-8 (std's `String::from_utf8`).
/// Trusted: the decode succeeds exactly on well-formed UTF-8, and then yields the
/// characters that the bytes encode.
#[verifier::external_body]
pub(crate) fn decode_utf8(bytes: Vec<u8>) -> (r: Option<String>)
    ensures
        r is Some <==> vstd::utf8::valid_utf8(bytes@),
        r matches Some(s) ==> s@ == vstd::utf8::decode_utf8(bytes@),
{
    String::from_utf8(bytes).ok()
}

/// What std's `str::to_lowercase` gives for a string (Unicode lowercase mapping).
pub uninterp spec fn lowercase_of(s: Seq<char>) -> Seq<char>;

/// Lowercases a string (std's `str::to_lowercase`).
/// Trusted: the result is `lowercase_of` the input, and text of ASCII characters with no
/// uppercase letter is its own lowercase; the rest of the mapping is not written out.
#[verifier::external_body]
pub(crate) fn to_lowercase(s: &str) -> (r: String)
    ensures
        r@ == lowercase_of(s@),
        (forall|i: int| 0 <= i < s@.len() ==> (#[trigger] s@[i] as u32) < 128 && !('A' <= s@[i] <= 'Z')) ==> r@ == s@,
{
    s.to_lowercase()
}

/// Unicode `White_Space`, the set that std's `char::is_whitespace` tests.
pub open spec fn is_white_space(c: char) -> bool {
    let n = c as u32;
    ||| 0x09 <= n <= 0x0D
    ||| n == 0x20
    ||| n == 0x85
    ||| n == 0xA0
    ||| n == 0x1680
    ||| 0x2000 <= n <= 0x200A
    ||| n == 0x2028
    ||| n == 0x2029
    ||| n == 0x202F
    ||| n == 0x205F
    ||| n == 0x3000
}

/// A carriage return or a line feed.
pub open spec fn is_line_break(c: char) -> bool {
    c == '\r' || c == '\n'
}

/// The characters removed by a trim: white space, or only line breaks.
pub open spec fn trimmed_char(line_breaks_only: bool, c: char) -> bool {
    if line_breaks_only {
        is_line_break(c)
    } else {
        is_white_space(c)
    }
}

/// `s` without its leading characters of the trimmed set.
pub open spec fn trim_start(s: Seq<char>, line_breaks_only: bool) -> Seq<char>
    decreases s.len(),
{
    if s.len() > 0 && trimmed_char(line_breaks_only, s[0]) {
        trim_start(s.drop_first(), line_breaks_only)
    } else {
        s
    }
}

/// `s` without its trailing characters of the trimmed set.
pub open spec fn trim_end(s: Seq<char>, line_breaks_only: bool) -> Seq<char>
    decreases s.len(),
{
    if s.len() > 0 && trimmed_char(line_breaks_only, s.last()) {
        trim_end(s.drop_last(), line_breaks_only)
    } else {
        s
    }
}

/// `s` without leading and trailing characters of the trimmed set.
pub open spec fn trim(s: Seq<char>, line_breaks_only: bool) -> Seq<char> {
    trim_end(trim_start(s, line_breaks_only), line_breaks_only)
}

/// Whether `c` is in the trimmed set.
pub fn is_trimmed_char(line_breaks_only: bool, c: char) -> (r: bool)
    ensures
        r == trimmed_char(line_breaks_only, c),
{
    if line_breaks_only {
        c == '\r' || c == '\n'
    } else {
        let n = c as u32;
        (0x09 <= n && n <= 0x0D) || n == 0x20 || n == 0x85 || n == 0xA0 || n == 0x1680 || (0x2000
            <= n && n <= 0x200A) || n == 0x2028 || n == 0x2029 || n == 0x202F || n == 0x205F || n
            == 0x3000
    }
}

/// The characters of `v` with the trimmed set removed from both ends.
pub fn trim_chars(v: &[char], line_breaks_only: bool) -> (r: Vec<char>)
    ensures
        r@ == trim(v@, line_breaks_only),
{
    let n = v.len();
    let mut lo: usize = 0;
    assert(v@.subrange(0, n as int) =~= v@);
    while lo < n && is_trimmed_char(line_breaks_only, v[lo])
        invariant
            lo <= n,
            n == v@.len(),
            trim_start(v@, line_breaks_only) == trim_start(v@.subrange(lo as int, n as int), line_breaks_only),
        decreases n - lo,
    {
        assert(v@.subrange(lo as int, n as int).drop_first() =~= v@.subrange(lo + 1, n as int));
        lo = lo + 1;
    }
    assert(trim_start(v@, line_breaks_only) == v@.subrange(lo as int, n as int));
    let mut hi: usize = n;
    while hi > lo && is_trimmed_char(line_breaks_only, v[hi - 1])
        invariant
            lo <= hi <= n,
            n == v@.len(),
            trim(v@, line_breaks_only) == trim_end(v@.subrange(lo as int, hi as int), line_breaks_only),
        decreases hi,
    {
        assert(v@.subrange(lo as int, hi as int).drop_last() =~= v@.subrange(lo as int, hi - 1));
        hi = hi - 1;
    }
    let mut r: Vec<char> = Vec::new();
    let mut i = lo;
    while i < hi
        invariant
            lo <= i <= hi <= n,
            n == v@.len(),
            r@ =~= v@.subrange(lo as int, i as int),
        decreases hi - i,
    {
        r.push(v[i]);
        i = i + 1;
    }
    r
}

/// `s` with white space removed from both ends (std's `str::trim`).
pub fn trim_str(s: &str) -> (r: String)
    ensures
        r@ == trim(s@, false),
{
    let v = chars_of(s);
    let t = trim_chars(v.as_slice(), false);
    string_from_chars(t.as_slice())
}

/// Whether `p` occurs in `s` as a contiguous run.
pub open spec fn has_substring(s: Seq<char>, p: Seq<char>) -> bool {
    exists|i: int| 0 <= i && i + p.len() <= s.len() && #[trigger] s.subrange(i, i + p.len()) == p
}

/// Whether `a` and `b` hold the same characters.
pub fn chars_equal(a: &[char], b: &[char]) -> (r: bool)
    ensures
        r == (a@ == b@),
{
    if a.len() != b.len() {
        return false;
    }
    let mut i: usize = 0;
    while i < a.len()
        invariant
            a@.len() == b@.len(),
            i <= a@.len(),
            forall|j: int| 0 <= j < i ==> a@[j] == b@[j],
        decreases a.len() - i,
    {
        if a[i] != b[i] {
            return false;
        }
        i = i + 1;
    }
    assert(a@ =~= b@);
    true
}

/// Whether the two strings hold the same characters.
pub fn same_text(a: &str, b: &str) -> (r: bool)
    ensures
        r == (a@ == b@),
{
    let va = chars_of(a);
    let vb = chars_of(b);
    chars_equal(va.as_slice(), vb.as_slice())
}

/// Whether `p` occurs in `s` (std's `str::contains` with a string pattern).
pub fn contains_chars(s: &[char], p: &[char]) -> (r: bool)
    ensures
        r == has_substring(s@, p@),
{
    if p.len() > s.len() {
        return false;
    }
    if p.len() == 0 {
        assert(s@.subrange(0, 0 + p@.len() as int) =~= p@);
        return true;
    }
    let n = s.len();
    let last = n - p.len();
    let mut i: usize = 0;
    while i <= last
        invariant
            n == s@.len(),
            last == s@.len() - p@.len(),
            0 < p@.len() <= s@.len(),
            forall|k: int| 0 <= k < i ==> #[trigger] s@.subrange(k, k + p@.len()) != p@,
        decreases last + 1 - i,
    {
        let mut j: usize = 0;
        let mut matched = true;
        while j < p.len()
            invariant
                i <= last,
                n == s@.len(),
                last == s@.len() - p@.len(),
                0 < p@.len() <= s@.len(),
                j <= p@.len(),
                matched == (forall|m: int| 0 <= m < j ==> s@[i + m] == p@[m]),
            decreases p.len() - j,
        {
            if s[i + j] != p[j] {
                matched = false;
            }
            j = j + 1;
        }
        if matched {
            assert(s@.subrange(i as int, i + p@.len()) =~= p@);
            return true;
        }
        assert(s@.subrange(i as int, i + p@.len()) != p@) by {
            let m = choose|m: int| 0 <= m < p@.len() && s@[i + m] != p@[m];
            assert(s@.subrange(i as int, i + p@.len())[m] == s@[i + m]);
        }
        i = i + 1;
    }
    assert(!has_substring(s@, p@)) by {
        if has_substring(s@, p@) {
            let k = choose|k: int|
                0 <= k && k + p@.len() <= s@.len() && #[trigger] s@.subrange(k, k + p@.len()) == p@;
            assert(s@.subrange(k, k + p@.len()) != p@);
        }
    }
    false
}

/// The index of the first `c` in `s`, if any.
#[verifier::opaque]
pub open spec fn first_index_of(s: Seq<char>, c: char) -> Option<int> {
    if exists|i: int| 0 <= i < s.len() && s[i] == c {
        Some(choose|i: int| 0 <= i < s.len() && s[i] == c && forall|j: int| 0 <= j < i ==> s[j] != c)
    } else {
        None
    }
}

/// What [`first_index_of`] finds is an index of `c` with no `c` before it.
pub proof fn lemma_first_index_of(s: Seq<char>, c: char)
    ensures
        first_index_of(s, c) matches Some(i) ==> 0 <= i < s.len() && s[i] == c && forall|j: int|
            0 <= j < i ==> s[j] != c,
        first_index_of(s, c) is None ==> forall|j: int| 0 <= j < s.len() ==> s[j] != c,
{
    reveal(first_index_of);
    if exists|i: int| 0 <= i < s.len() && s[i] == c {
        let i0 = choose|i: int| 0 <= i < s.len() && s[i] == c;
        lemma_least_index(s, c, i0);
    }
}

/// An occurrence of `c` with none before it is the first one.
pub proof fn lemma_first_index_is(s: Seq<char>, c: char, i: int)
    requires
        0 <= i < s.len(),
        s[i] == c,
        forall|j: int| 0 <= j < i ==> s[j] != c,
    ensures
        first_index_of(s, c) == Some(i),
{
    lemma_first_index_of(s, c);
    let k = first_index_of(s, c)->0;
    assert(k == i) by {
        if k < i {
        } else if k > i {
            assert(s[i] == c);
        }
    }
}

/// No occurrence of `c`: there is no first one.
pub proof fn lemma_first_index_none(s: Seq<char>, c: char)
    requires
        forall|j: int| 0 <= j < s.len() ==> s[j] != c,
    ensures
        first_index_of(s, c) is None,
{
    lemma_first_index_of(s, c);
}

/// If `c` occurs at `k`, some occurrence has none before it.
proof fn lemma_least_index(s: Seq<char>, c: char, k: int)
    requires
        0 <= k < s.len(),
        s[k] == c,
    ensures
        exists|i: int| 0 <= i < s.len() && s[i] == c && forall|j: int| 0 <= j < i ==> s[j] != c,
    decreases k,
{
    if exists|j: int| 0 <= j < k && s[j] == c {
        let j = choose|j: int| 0 <= j < k && s[j] == c;
        lemma_least_index(s, c, j);
    } else {
        assert(forall|j: int| 0 <= j < k ==> s[j] != c);
    }
}

/// The parts before and after the first `c` in `s`, if `c` occurs (std's `str::split_once`).
pub open spec fn split_once(s: Seq<char>, c: char) -> Option<(Seq<char>, Seq<char>)> {
    match first_index_of(s, c) {
        Some(i) => Some((s.take(i), s.skip(i + 1))),
        None => None,
    }
}

/// Finds the first `c` in `v`.
pub fn find_char(v: &[char], c: char) -> (r: Option<usize>)
    ensures
        match r {
            Some(i) => first_index_of(v@, c) == Some(i as int) && i < v@.len(),
            None => first_index_of(v@, c) is None,
        },
{
    let mut i: usize = 0;
    while i < v.len()
        invariant
            i <= v@.len(),
            forall|j: int| 0 <= j < i ==> v@[j] != c,
        decreases v.len() - i,
    {
        if v[i] == c {
            proof {
                lemma_first_index_is(v@, c, i as int);
            }
            return Some(i);
        }
        i = i + 1;
    }
    proof {
        lemma_first_index_none(v@, c);
    }
    None
}

/// The characters of `v` from `lo` up to (not including) `hi`.
pub fn slice_chars(v: &[char], lo: usize, hi: usize) -> (r: Vec<char>)
    requires
        lo <= hi <= v@.len(),
    ensures
        r@ == v@.subrange(lo as int, hi as int),
{
    let mut r: Vec<char> = Vec::new();
    let mut i = lo;
    while i < hi
        invariant
            lo <= i <= hi <= v@.len(),
            r@ =~= v@.subrange(lo as int, i as int),
        decreases hi - i,
    {
        r.push(v[i]);
        i = i + 1;
    }
    r
}

/// Appends the characters of `src` to `dst`.
pub fn extend_chars(dst: &mut Vec<char>, src: &[char])
    ensures
        final(dst)@ == old(dst)@ + src@,
{
    let ghost start = dst@;
    let mut i: usize = 0;
    while i < src.len()
        invariant
            i <= src@.len(),
            dst@ =~= start + src@.subrange(0, i as int),
        decreases src.len() - i,
    {
        dst.push(src[i]);
        i = i + 1;
    }
    assert(src@.subrange(0, src@.len() as int) =~= src@);
}

} // verus!
