//! The query normalizer: a free-text search phrase becomes the page path of
//! the wiki, its words capitalized and joined by underscores.
//!
//! Only the first character of each word changes; the rest of the word keeps
//! its case, so `FIRE rate` becomes `FIRE_Rate`.

use vstd::prelude::*;
use crate::text::{is_white_space, upper, upper_of};

verus! {

/// The words of `s`: its maximal runs of non-whitespace characters, in order.
/// Leading, trailing and repeated whitespace yields no empty word.
pub open spec fn words(s: Seq<char>) -> Seq<Seq<char>>
    decreases s.len(),
{
    if s.len() == 0 {
        seq![]
    } else {
        let prev = words(s.drop_last());
        let c = s.last();
        if is_white_space(c) {
            prev
        } else if s.len() >= 2 && !is_white_space(s[s.len() - 2]) {
            prev.update(prev.len() - 1, prev.last().push(c))
        } else {
            prev.push(seq![c])
        }
    }
}

/// The text of each string of a sequence.
pub open spec fn views(v: Seq<String>) -> Seq<Seq<char>> {
    v.map_values(|w: String| w@)
}

/// The words found so far, with the word still being read (if any) at the end.
spec fn flushed(done: Seq<Seq<char>>, cur: Seq<char>) -> Seq<Seq<char>> {
    if cur.len() == 0 {
        done
    } else {
        done.push(cur)
    }
}

proof fn lemma_words_nonempty(s: Seq<char>)
    ensures
        forall|i: int| 0 <= i < words(s).len() ==> #[trigger] words(s)[i].len() > 0,
        s.len() > 0 && !is_white_space(s.last()) ==> words(s).len() > 0,
    decreases s.len(),
{
    if s.len() > 0 {
        let p = s.drop_last();
        lemma_words_nonempty(p);
        if s.len() >= 2 && !is_white_space(s[s.len() - 2]) {
            assert(p.last() == s[s.len() - 2]);
        }
        assert forall|i: int| 0 <= i < words(s).len() implies #[trigger] words(s)[i].len() > 0 by {
            if i < words(p).len() {
                assert(words(p)[i].len() > 0);
            }
        }
    }
}

/// How many times `c` occurs in `s`.
pub open spec fn occurrences(s: Seq<char>, c: char) -> nat
    decreases s.len(),
{
    if s.len() == 0 {
        0
    } else {
        occurrences(s.drop_last(), c) + if s.last() == c {
            1nat
        } else {
            0nat
        }
    }
}

proof fn lemma_occurrences_concat(a: Seq<char>, b: Seq<char>, c: char)
    ensures
        occurrences(a + b, c) == occurrences(a, c) + occurrences(b, c),
    decreases b.len(),
{
    if b.len() > 0 {
        lemma_occurrences_concat(a, b.drop_last(), c);
        assert((a + b).drop_last() =~= a + b.drop_last());
    } else {
        assert(a + b =~= a);
    }
}

proof fn lemma_occurrences_absent(s: Seq<char>, c: char)
    requires
        !s.contains(c),
    ensures
        occurrences(s, c) == 0,
    decreases s.len(),
{
    if s.len() > 0 {
        assert(s.drop_last().contains(c) ==> s.contains(c));
        lemma_occurrences_absent(s.drop_last(), c);
        assert(s.last() == s[s.len() - 1]);
    }
}

/// No word of `s` holds a character that `s` lacks.
proof fn lemma_words_lack(s: Seq<char>, c: char)
    requires
        !s.contains(c),
    ensures
        forall|i: int| 0 <= i < words(s).len() ==> !(#[trigger] words(s)[i]).contains(c),
    decreases s.len(),
{
    if s.len() > 0 {
        let p = s.drop_last();
        assert(!p.contains(c)) by {
            if p.contains(c) {
                let k = choose|k: int| 0 <= k < p.len() && p[k] == c;
                assert(s[k] == c);
            }
        }
        lemma_words_lack(p, c);
        assert(s.last() != c) by {
            assert(s[s.len() - 1] == s.last());
        }
        assert forall|i: int| 0 <= i < words(s).len() implies !(#[trigger] words(s)[i]).contains(
            c,
        ) by {
            let w = words(s)[i];
            let last = s.last();
            if w.contains(c) {
                let k = choose|k: int| 0 <= k < w.len() && w[k] == c;
                if is_white_space(last) {
                    assert(words(p)[i][k] == c);
                } else if s.len() >= 2 && !is_white_space(s[s.len() - 2]) {
                    lemma_words_nonempty(p);
                    assert(p.last() == s[s.len() - 2]);
                    if i < words(p).len() - 1 {
                        assert(words(p)[i][k] == c);
                    } else {
                        assert(w == words(p)[i].push(last));
                        assert(k < words(p)[i].len());
                        assert(words(p)[i][k] == c);
                    }
                } else {
                    if i < words(p).len() {
                        assert(words(p)[i][k] == c);
                    } else {
                        assert(w =~= seq![last]);
                    }
                }
            }
        }
    }
}

/// Parts that are not empty and hold no `sep`, joined by `sep`, hold one
/// `sep` fewer than there are parts and neither begin nor end with it.
proof fn lemma_joined_separators(parts: Seq<Seq<char>>, sep: char)
    requires
        parts.len() > 0,
        forall|i: int| 0 <= i < parts.len() ==> (#[trigger] parts[i]).len() > 0,
        forall|i: int| 0 <= i < parts.len() ==> !(#[trigger] parts[i]).contains(sep),
    ensures
        occurrences(joined(parts, sep), sep) + 1 == parts.len(),
        joined(parts, sep).len() > 0,
        joined(parts, sep)[0] != sep,
        joined(parts, sep).last() != sep,
    decreases parts.len(),
{
    let j = joined(parts, sep);
    let last = parts.last();
    assert(last == parts[parts.len() - 1]);
    lemma_occurrences_absent(last, sep);
    assert(last.last() == last[last.len() - 1]);
    if parts.len() == 1 {
        assert(parts[0][0] != sep);
    } else {
        let rest = parts.drop_last();
        assert forall|i: int| 0 <= i < rest.len() implies (#[trigger] rest[i]).len() > 0
            && !rest[i].contains(sep) by {
            assert(rest[i] == parts[i]);
        }
        lemma_joined_separators(rest, sep);
        let head = joined(rest, sep).push(sep);
        lemma_occurrences_concat(head, last, sep);
        assert(head.drop_last() =~= joined(rest, sep));
        assert(j[0] == head[0]);
        assert(j.last() == last.last());
    }
}

/// Splits `s` into its whitespace-separated words.
pub fn split_words(s: &str) -> (r: Vec<String>)
    ensures
        views(r@) == words(s@),
{
    let n: usize = s.unicode_len();
    let mut done: Vec<String> = Vec::new();
    let mut cur = String::new();
    let mut in_word = false;
    let mut i: usize = 0;
    while i < n
        invariant
            n == s@.len(),
            i <= n,
            flushed(views(done@), cur@) == words(s@.subrange(0, i as int)),
            in_word == (cur@.len() > 0),
            in_word == (i > 0 && !is_white_space(s@[i - 1])),
        decreases n - i,
    {
        let c = s.get_char(i);
        let ghost before = views(done@);
        let ghost word = cur@;
        let ghost next = s@.subrange(0, i + 1);
        assert(next.drop_last() =~= s@.subrange(0, i as int));
        assert(next.last() == c);
        if c.is_whitespace() {
            if in_word {
                let finished = cur;
                done.push(finished);
                cur = String::new();
                in_word = false;
                assert(views(done@) =~= before.push(word));
            }
        } else {
            cur.push(c);
            if in_word {
                assert(next[next.len() - 2] == s@[i - 1]);
                assert(before.push(word).update(before.len() as int, word.push(c)) =~= before.push(cur@));
            } else {
                assert(cur@ =~= seq![c]);
            }
            in_word = true;
        }
        i = i + 1;
    }
    assert(s@.subrange(0, n as int) =~= s@);
    if in_word {
        let ghost before = views(done@);
        done.push(cur);
        assert(views(done@) =~= before.push(cur@));
    }
    done
}

/// A word with its first character upper-cased and the rest unchanged.
pub open spec fn capitalized(w: Seq<char>) -> Seq<char> {
    if w.len() == 0 {
        seq![]
    } else {
        upper_of(w[0]) + w.drop_first()
    }
}

/// Each word of a sequence capitalized.
pub open spec fn capitalized_all(ws: Seq<Seq<char>>) -> Seq<Seq<char>> {
    ws.map_values(|w: Seq<char>| capitalized(w))
}

/// The parts laid end to end with one `sep` between each two neighbours.
pub open spec fn joined(parts: Seq<Seq<char>>, sep: char) -> Seq<char>
    decreases parts.len(),
{
    if parts.len() == 0 {
        seq![]
    } else if parts.len() == 1 {
        parts[0]
    } else {
        joined(parts.drop_last(), sep).push(sep) + parts.last()
    }
}

/// The page path for a search phrase: its words capitalized and joined by `_`.
pub open spec fn canonical_path(s: Seq<char>) -> Seq<char> {
    joined(capitalized_all(words(s)), '_')
}

/// Upper-cases the first character of `w` and keeps the rest as it is.
pub fn capitalize(w: &str) -> (r: String)
    ensures
        r@ == capitalized(w@),
        w@.len() > 0 ==> r@.len() > 0,
        w@.len() > 0 && (w@[0] as u32) < 128 && !w@.contains('_') ==> !r@.contains('_'),
{
    let n: usize = w.unicode_len();
    if n == 0 {
        return String::new();
    }
    let first = w.get_char(0);
    let mut r = upper(first);
    let ghost head = r@;
    let rest = w.substring_char(1, n);
    r.append(rest);
    assert(w@.subrange(1, n as int) =~= w@.drop_first());
    proof {
        if (first as u32) < 128 && !w@.contains('_') {
            assert(head[0] != '_');
            assert forall|k: int| 0 <= k < r@.len() implies r@[k] != '_' by {
                if k >= head.len() {
                    assert(r@[k] == w@[k - head.len() + 1]);
                }
            }
        }
    }
    r
}

/// Capitalizes every word of `ws`, in order.
pub fn capitalize_all(ws: &Vec<String>) -> (r: Vec<String>)
    ensures
        views(r@) == capitalized_all(views(ws@)),
        forall|i: int|
            0 <= i < ws@.len() && ws@[i]@.len() > 0 ==> (#[trigger] r@[i])@.len() > 0,
        forall|i: int|
            0 <= i < ws@.len() && ws@[i]@.len() > 0 && (ws@[i]@[0] as u32) < 128
                && !ws@[i]@.contains('_') ==> !(#[trigger] r@[i])@.contains('_'),
{
    let mut r: Vec<String> = Vec::new();
    let mut i: usize = 0;
    while i < ws.len()
        invariant
            i <= ws@.len(),
            views(r@) =~= capitalized_all(views(ws@)).subrange(0, i as int),
            r@.len() == i,
            forall|j: int|
                0 <= j < i && ws@[j]@.len() > 0 ==> (#[trigger] r@[j])@.len() > 0,
            forall|j: int|
                0 <= j < i && ws@[j]@.len() > 0 && (ws@[j]@[0] as u32) < 128
                    && !ws@[j]@.contains('_') ==> !(#[trigger] r@[j])@.contains('_'),
        decreases ws@.len() - i,
    {
        let ghost before = views(r@);
        let c = capitalize(ws[i].as_str());
        r.push(c);
        assert(views(r@) =~= before.push(capitalized(views(ws@)[i as int])));
        i = i + 1;
    }
    r
}

/// Joins `parts` with `sep` between each two neighbours.
pub fn join_with(parts: &Vec<String>, sep: char) -> (r: String)
    ensures
        r@ == joined(views(parts@), sep),
{
    let mut r = String::new();
    let mut i: usize = 0;
    while i < parts.len()
        invariant
            i <= parts@.len(),
            r@ == joined(views(parts@).subrange(0, i as int), sep),
        decreases parts@.len() - i,
    {
        let ghost done = views(parts@).subrange(0, i as int);
        let ghost next = views(parts@).subrange(0, i + 1);
        assert(next.drop_last() =~= done);
        if i > 0 {
            r.push(sep);
        } else {
            assert(r@ =~= seq![]);
        }
        r.append(parts[i].as_str());
        assert(next.last() == parts@[i as int]@);
        i = i + 1;
    }
    assert(views(parts@).subrange(0, parts@.len() as int) =~= views(parts@));
    r
}

/// Every word of `s` begins with an ASCII character.
pub open spec fn ascii_initials(s: Seq<char>) -> bool {
    forall|i: int| 0 <= i < words(s).len() ==> ((#[trigger] words(s)[i])[0] as u32) < 128
}

/// The page path for an optional search phrase; none without a phrase.
///
/// A phrase of `n` words with no `_` of its own gives a path with `n - 1`
/// underscores, none at either end. (Where each word begins with an ASCII
/// character, that is: only there is its upper-case form known here.)
pub fn normalize(query: Option<&str>) -> (r: Option<String>)
    ensures
        query is None <==> r is None,
        query is Some ==> r->0@ == canonical_path(query->0@),
        query matches Some(q) ==> (!q@.contains('_') && ascii_initials(q@) && words(q@).len() > 0
            ==> occurrences(r->0@, '_') + 1 == words(q@).len() && r->0@[0] != '_'
            && r->0@.last() != '_'),
{
    match query {
        None => None,
        Some(q) => {
            let ws = split_words(q);
            let caps = capitalize_all(&ws);
            let path = join_with(&caps, '_');
            proof {
                if !q@.contains('_') && ascii_initials(q@) && words(q@).len() > 0 {
                    lemma_words_lack(q@, '_');
                    lemma_words_nonempty(q@);
                    let parts = views(caps@);
                    assert forall|i: int| 0 <= i < parts.len() implies (#[trigger] parts[i]).len()
                        > 0 && !parts[i].contains('_') by {
                        assert(ws@[i]@ == words(q@)[i]);
                        assert(parts[i] == caps@[i]@);
                    }
                    lemma_joined_separators(parts, '_');
                }
            }
            Some(path)
        },
    }
}

} // verus!
