//! The pure core of wordlist handling: turning raw file or download
//! content into a trimmed, deduplicated list of non-empty words. Reading
//! the file or performing the download happens outside the library.

use vstd::prelude::*;
use crate::text::split_spec;
use crate::text::split_str;
use crate::text::trim;
use crate::text::trim_all;
use crate::text::trim_spec;
use crate::text::views_of;

verus! {

/// The segments that are non-empty, in order.
pub open spec fn nonempty_only(segs: Seq<Seq<char>>) -> Seq<Seq<char>>
    decreases segs.len(),
{
    if segs.len() == 0 {
        Seq::empty()
    } else {
        nonempty_only(segs.drop_last()) + (if segs.last().len() > 0 {
            seq![segs.last()]
        } else {
            Seq::<Seq<char>>::empty()
        })
    }
}

/// The words with every repetition after the first occurrence removed.
pub open spec fn dedup_spec(words: Seq<Seq<char>>) -> Seq<Seq<char>>
    decreases words.len(),
{
    if words.len() == 0 {
        Seq::empty()
    } else {
        let rest = dedup_spec(words.drop_last());
        if words.drop_last().contains(words.last()) {
            rest
        } else {
            rest.push(words.last())
        }
    }
}

/// The normalized wordlist: lines trimmed, empty lines dropped, and
/// duplicates removed keeping first occurrences.
pub open spec fn spec_wordlist(lines: Seq<Seq<char>>) -> Seq<Seq<char>> {
    dedup_spec(nonempty_only(trim_all(lines)))
}

proof fn lemma_contains_push(s: Seq<Seq<char>>, y: Seq<char>, x: Seq<char>)
    ensures
        s.push(y).contains(x) == (s.contains(x) || x == y),
{
    if s.contains(x) {
        let i = choose|i: int| 0 <= i < s.len() && s[i] == x;
        assert(s.push(y)[i] == x);
    }
    if x == y {
        assert(s.push(y)[s.len() as int] == x);
    }
    if s.push(y).contains(x) {
        let i = choose|i: int| 0 <= i < s.push(y).len() && s.push(y)[i] == x;
        if i < s.len() {
            assert(s[i] == x);
        }
    }
}

/// Law: deduplication keeps exactly the words that were there.
pub proof fn lemma_dedup_same_words(words: Seq<Seq<char>>, x: Seq<char>)
    ensures
        dedup_spec(words).contains(x) == words.contains(x),
    decreases words.len(),
{
    if words.len() > 0 {
        let front = words.drop_last();
        lemma_dedup_same_words(front, x);
        lemma_contains_push(dedup_spec(front), words.last(), x);
        lemma_contains_push(front, words.last(), x);
        assert(front.push(words.last()) =~= words);
    }
}

/// Law: deduplication leaves no duplicates.
pub proof fn lemma_dedup_no_duplicates(words: Seq<Seq<char>>)
    ensures
        dedup_spec(words).no_duplicates(),
    decreases words.len(),
{
    if words.len() > 0 {
        let front = words.drop_last();
        lemma_dedup_no_duplicates(front);
        if !front.contains(words.last()) {
            let out = dedup_spec(front).push(words.last());
            assert forall|i: int, j: int|
                0 <= i < out.len() && 0 <= j < out.len() && i != j implies out[i] != out[j] by {
                lemma_dedup_same_words(front, words.last());
                if i < out.len() - 1 && j < out.len() - 1 {
                    assert(dedup_spec(front)[i] != dedup_spec(front)[j]);
                } else if i == out.len() - 1 && j < out.len() - 1 {
                    assert(dedup_spec(front).contains(dedup_spec(front)[j]));
                } else if j == out.len() - 1 && i < out.len() - 1 {
                    assert(dedup_spec(front).contains(dedup_spec(front)[i]));
                }
            }
        }
    }
}

fn word_in_list(words: &Vec<String>, w: &String) -> (found: bool)
    ensures
        found == views_of(words@).contains(w@),
{
    let n = words.len();
    let mut i: usize = 0;
    while i < n
        invariant
            n == words@.len(),
            i <= n,
            forall|k: int| 0 <= k < i ==> words@[k]@ != w@,
        decreases n - i,
    {
        if words[i] == *w {
            proof {
                assert(views_of(words@)[i as int] == w@);
            }
            return true;
        }
        i += 1;
    }
    proof {
        assert(!views_of(words@).contains(w@)) by {
            if views_of(words@).contains(w@) {
                let j = choose|j: int|
                    0 <= j < views_of(words@).len() && views_of(words@)[j] == w@;
                assert(words@[j]@ == w@);
            }
        }
    }
    false
}

/// Normalize raw wordlist lines: trim each, drop empties, and drop
/// duplicates keeping the first occurrence.
pub fn normalize_wordlist(lines: &Vec<String>) -> (words: Vec<String>)
    ensures
        views_of(words@) == spec_wordlist(views_of(lines@)),
{
    let ghost lv = views_of(lines@);
    let mut words: Vec<String> = Vec::new();
    let n = lines.len();
    let mut k: usize = 0;
    while k < n
        invariant
            n == lines@.len(),
            k <= n,
            lv == views_of(lines@),
            views_of(words@) == spec_wordlist(lv.subrange(0, k as int)),
        decreases n - k,
    {
        let t = trim(lines[k].as_str());
        let tw = String::from_str(t);
        let keep = if t.unicode_len() > 0 {
            !word_in_list(&words, &tw)
        } else {
            false
        };
        let ghost words0 = words@;
        if keep {
            words.push(tw);
        }
        proof {
            let pre = lv.subrange(0, k as int);
            let cur = lv.subrange(0, k + 1);
            assert(cur.drop_last() =~= pre);
            assert(cur.last() == lv[k as int]);
            assert(trim_all(cur).drop_last() =~= trim_all(pre));
            assert(trim_all(cur).last() == trim_spec(lv[k as int]));
            let ne_pre = nonempty_only(trim_all(pre));
            let ne_cur = nonempty_only(trim_all(cur));
            if t@.len() > 0 {
                assert(ne_cur =~= ne_pre.push(trim_spec(lv[k as int])));
                assert(ne_cur.drop_last() =~= ne_pre);
                lemma_dedup_same_words(ne_pre, trim_spec(lv[k as int]));
                if keep {
                    assert(views_of(words@) =~= views_of(words0).push(t@));
                } else {
                    assert(ne_pre.contains(t@));
                }
            } else {
                assert(ne_cur =~= ne_pre);
                assert(dedup_spec(ne_cur) == dedup_spec(ne_pre));
            }
            assert(views_of(words@) == spec_wordlist(cur));
        }
        k += 1;
    }
    proof {
        assert(lv.subrange(0, n as int) =~= lv);
    }
    words
}

/// Turn raw wordlist content into the normalized word set: split on
/// newlines, trim (which also removes a carriage return), drop empty
/// lines, and deduplicate.
pub fn wordlist_from_content(content: &str) -> (words: Vec<String>)
    ensures
        views_of(words@) == spec_wordlist(split_spec(content@, '\n')),
{
    let lines = split_str(content, '\n');
    normalize_wordlist(&lines)
}

} // verus!
