//! Filling `{name}` placeholders in command templates.

use vstd::prelude::*;
use crate::strmap::StrMap;
use crate::text::{
    chars_of, extend_chars, first_index_of, lemma_first_index_is, lemma_first_index_none, lemma_first_index_of,
    slice_chars, string_from_chars,
};

verus! {

/// `template` with each placeholder replaced, scanning from the left: a placeholder is
/// `{`, one or more characters other than `}`, then `}`. A placeholder whose name has a
/// value becomes the value; any other stays as written. Text that starts no
/// placeholder is copied.
#[verifier::opaque]
pub open spec fn expand(s: Seq<char>, vals: Map<Seq<char>, Seq<char>>) -> Seq<char>
    decreases s.len(),
{
    if s.len() == 0 {
        Seq::empty()
    } else if s[0] == '{' && s.len() >= 2 && s[1] != '}' && first_index_of(s.drop_first(), '}') is Some {
        let p = first_index_of(s.drop_first(), '}')->0;
        proof {
            lemma_first_index_of(s.drop_first(), '}');
        }
        let name = s.subrange(1, p + 1);
        let rep = if vals.contains_key(name) { vals[name] } else { s.take(p + 2) };
        rep + expand(s.skip(p + 2), vals)
    } else {
        seq![s[0]] + expand(s.drop_first(), vals)
    }
}

/// One step of [`expand`] at a placeholder that closes at index `p + 1`.
proof fn lemma_expand_at_placeholder(s: Seq<char>, vals: Map<Seq<char>, Seq<char>>, p: int)
    requires
        s.len() >= 2,
        s[0] == '{',
        s[1] != '}',
        first_index_of(s.drop_first(), '}') == Some(p),
    ensures
        0 < p < s.len() - 1,
        expand(s, vals) == (if vals.contains_key(s.subrange(1, p + 1)) {
            vals[s.subrange(1, p + 1)]
        } else {
            s.take(p + 2)
        }) + expand(s.skip(p + 2), vals),
{
    lemma_first_index_of(s.drop_first(), '}');
    assert(s.drop_first()[0] == s[1]);
    reveal(expand);
}

/// One step of [`expand`] at a character that starts no placeholder.
proof fn lemma_expand_plain(s: Seq<char>, vals: Map<Seq<char>, Seq<char>>)
    requires
        s.len() >= 1,
        !(s[0] == '{' && s.len() >= 2 && s[1] != '}' && first_index_of(s.drop_first(), '}') is Some),
    ensures
        expand(s, vals) == seq![s[0]] + expand(s.drop_first(), vals),
{
    reveal(expand);
}

/// Placeholders without values stay as written: with no values, a template is left
/// unchanged.
pub proof fn law_expand_without_values(s: Seq<char>)
    ensures
        expand(s, Map::empty()) == s,
    decreases s.len(),
{
    reveal(expand);
    if s.len() > 0 {
        if s[0] == '{' && s.len() >= 2 && s[1] != '}' && first_index_of(s.drop_first(), '}') is Some {
            let p = first_index_of(s.drop_first(), '}')->0;
            lemma_first_index_of(s.drop_first(), '}');
            law_expand_without_values(s.skip(p + 2));
            assert(s.take(p + 2) + s.skip(p + 2) =~= s);
        } else {
            law_expand_without_values(s.drop_first());
            assert(seq![s[0]] + s.drop_first() =~= s);
        }
    }
}

/// Text without `{` has no placeholders: it is left unchanged.
pub proof fn law_expand_plain_text(s: Seq<char>, vals: Map<Seq<char>, Seq<char>>)
    requires
        !s.contains('{'),
    ensures
        expand(s, vals) == s,
    decreases s.len(),
{
    reveal(expand);
    if s.len() > 0 {
        assert(s[0] != '{') by {
            assert(s.contains(s[0]));
        }
        assert(!s.drop_first().contains('{')) by {
            if s.drop_first().contains('{') {
                let k = choose|k: int| 0 <= k < s.drop_first().len() && s.drop_first()[k] == '{';
                assert(s[k + 1] == '{');
            }
        }
        law_expand_plain_text(s.drop_first(), vals);
        assert(seq![s[0]] + s.drop_first() =~= s);
    }
}

/// The first `c` at or after index `from`, as an index of `v`.
fn find_char_from(v: &[char], c: char, from: usize) -> (r: Option<usize>)
    requires
        from <= v@.len(),
    ensures
        match r {
            Some(q) => from <= q < v@.len() && first_index_of(v@.skip(from as int), c) == Some(q - from),
            None => first_index_of(v@.skip(from as int), c) is None,
        },
{
    let ghost w = v@.skip(from as int);
    let mut j = from;
    while j < v.len()
        invariant
            from <= j <= v@.len(),
            w == v@.skip(from as int),
            forall|k: int| from <= k < j ==> v@[k] != c,
        decreases v.len() - j,
    {
        if v[j] == c {
            proof {
                assert forall|m: int| 0 <= m < j - from implies w[m] != c by {
                    assert(w[m] == v@[m + from]);
                }
                lemma_first_index_is(w, c, j - from);
            }
            return Some(j);
        }
        j = j + 1;
    }
    proof {
        assert forall|m: int| 0 <= m < w.len() implies w[m] != c by {
            assert(w[m] == v@[m + from]);
        }
        lemma_first_index_none(w, c);
    }
    None
}

/// What the placeholder `t[i..=q]` becomes.
pub open spec fn placeholder_value(t: Seq<char>, i: int, q: int, vals: Map<Seq<char>, Seq<char>>) -> Seq<char> {
    let name = t.subrange(i + 1, q);
    if vals.contains_key(name) {
        vals[name]
    } else {
        t.subrange(i, q + 1)
    }
}

/// Appends what the placeholder `t[i..=q]` becomes.
fn emit_placeholder(t: &[char], i: usize, q: usize, values: &StrMap, out: &mut Vec<char>)
    requires
        i < q < t@.len(),
        t@.len() <= usize::MAX,
    ensures
        final(out)@ == old(out)@ + placeholder_value(t@, i as int, q as int, values@),
{
    let name = slice_chars(t, i + 1, q);
    let name_text = string_from_chars(name.as_slice());
    match values.get(name_text.as_str()) {
        Some(v) => {
            let vc = chars_of(v.as_str());
            extend_chars(out, vc.as_slice());
        },
        None => {
            let whole = slice_chars(t, i, q + 1);
            assert(whole@ == t@.subrange(i as int, q + 1));
            extend_chars(out, whole.as_slice());
        },
    }
}

/// Expands the text at index `i`: a whole placeholder, or one character. Returns where
/// the rest of the text starts.
fn expand_step(t: &[char], i: usize, values: &StrMap, out: &mut Vec<char>) -> (next: usize)
    requires
        i < t@.len(),
    ensures
        i < next <= t@.len(),
        final(out)@.len() >= old(out)@.len(),
        final(out)@.take(old(out)@.len() as int) == old(out)@,
        expand(t@.skip(i as int), values@) == final(out)@.skip(old(out)@.len() as int) + expand(t@.skip(next as int), values@),
{
    let n = t.len();
    let ghost s = t@.skip(i as int);
    let ghost before = out@;
    proof {
        assert(s.drop_first() =~= t@.skip(i + 1));
    }
    let mut close: Option<usize> = None;
    if t[i] == '{' && i + 1 < n && t[i + 1] != '}' {
        close = find_char_from(t, '}', i + 1);
    }
    match close {
        Some(q) => {
            let ghost p = q - (i + 1);
            proof {
                lemma_expand_at_placeholder(s, values@, p);
                assert(s.subrange(1, p + 1) =~= t@.subrange(i + 1, q as int));
                assert(s.take(p + 2) =~= t@.subrange(i as int, q + 1));
                assert(s.skip(p + 2) =~= t@.skip(q + 1));
            }
            emit_placeholder(t, i, q, values, out);
            proof {
                let rep = placeholder_value(t@, i as int, q as int, values@);
                assert(out@.skip(before.len() as int) =~= rep);
                assert(out@.take(before.len() as int) =~= before);
            }
            q + 1
        },
        None => {
            proof {
                lemma_expand_plain(s, values@);
            }
            out.push(t[i]);
            proof {
                assert(out@.skip(before.len() as int) =~= seq![s[0]]);
                assert(out@.take(before.len() as int) =~= before);
            }
            i + 1
        },
    }
}

/// Fills the placeholders of `template` from `values`; see [`expand`].
pub fn replace_placeholders(template: &str, values: &StrMap) -> (r: String)
    ensures
        r@ == expand(template@, values@),
{
    let t = chars_of(template);
    let n = t.len();
    let mut out: Vec<char> = Vec::new();
    let mut i: usize = 0;
    assert(t@.skip(0) =~= t@);
    while i < n
        invariant
            i <= n,
            n == t@.len(),
            t@ == template@,
            expand(template@, values@) == out@ + expand(t@.skip(i as int), values@),
        decreases n - i,
    {
        let ghost before = out@;
        let next = expand_step(t.as_slice(), i, values, &mut out);
        proof {
            let d = out@.skip(before.len() as int);
            let rest = expand(t@.skip(next as int), values@);
            assert(out@ =~= before + d);
            assert(before + (d + rest) =~= (before + d) + rest);
        }
        i = next;
    }
    proof {
        assert(t@.skip(n as int) =~= Seq::<char>::empty());
        reveal(expand);
        assert(out@ + Seq::<char>::empty() =~= out@);
    }
    string_from_chars(out.as_slice())
}

} // verus!
