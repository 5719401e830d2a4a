//! Counting the words of a list: each distinct word once, with the number
//! of times it occurs.
use vstd::prelude::*;
use vstd::string::*;
use crate::text::same_text;

verus! {

/// A word and how often it occurs.
pub struct WordCount {
    pub word: String,
    pub count: u32,
}

/// The texts of `words`.
pub open spec fn texts(words: Seq<&str>) -> Seq<Seq<char>> {
    words.map_values(|w: &str| w@)
}

/// How often `w` occurs in `s`.
pub open spec fn occurrences(s: Seq<Seq<char>>, w: Seq<char>) -> nat
    decreases s.len(),
{
    if s.len() == 0 {
        0
    } else {
        occurrences(s.drop_last(), w) + if s.last() == w {
            1nat
        } else {
            0nat
        }
    }
}

/// `r` counts the words `s`: its words are distinct, every word of `s` is
/// among them, and each comes with the number of times it occurs in `s`.
pub open spec fn counts_words(r: Seq<WordCount>, s: Seq<Seq<char>>) -> bool {
    &&& forall|i: int, j: int| 0 <= i < j < r.len() ==> #[trigger] r[i].word@ != #[trigger] r[j].word@
    &&& forall|i: int| 0 <= i < r.len() ==> #[trigger] r[i].count == occurrences(s, r[i].word@)
    &&& forall|i: int| 0 <= i < r.len() ==> s.contains(#[trigger] r[i].word@)
    &&& forall|k: int| 0 <= k < s.len() ==> #[trigger] has_word(r, s[k])
}

/// Some entry of `r` is for the word `w`.
pub open spec fn has_word(r: Seq<WordCount>, w: Seq<char>) -> bool {
    exists|i: int| 0 <= i < r.len() && r[i].word@ == w
}

spec fn has_text(seen: Seq<String>, w: Seq<char>) -> bool {
    exists|i: int| 0 <= i < seen.len() && seen[i]@ == w
}

proof fn lemma_occurrences_bound(s: Seq<Seq<char>>, w: Seq<char>)
    ensures
        occurrences(s, w) <= s.len(),
        s.contains(w) ==> occurrences(s, w) > 0,
        !s.contains(w) ==> occurrences(s, w) == 0,
    decreases s.len(),
{
    if s.len() > 0 {
        lemma_occurrences_bound(s.drop_last(), w);
        if s.contains(w) && s.last() != w {
            let k = choose|k: int| 0 <= k < s.len() && s[k] == w;
            assert(s.drop_last()[k] == w);
        }
        if s.drop_last().contains(w) {
            let k = choose|k: int| 0 <= k < s.drop_last().len() && s.drop_last()[k] == w;
            assert(s[k] == w);
        }
    }
}

fn position_of(seen: &Vec<String>, w: &str) -> (r: Option<usize>)
    ensures
        r matches Some(i) ==> i < seen.len() && seen@[i as int]@ == w@,
        r is None ==> forall|j: int| 0 <= j < seen.len() ==> seen@[j]@ != w@,
{
    let mut i: usize = 0;
    while i < seen.len()
        invariant
            i <= seen.len(),
            forall|j: int| 0 <= j < i ==> seen@[j]@ != w@,
        decreases seen.len() - i,
    {
        if same_text(seen[i].as_str(), w) {
            return Some(i);
        }
        i = i + 1;
    }
    None
}

/// Each distinct word of `words` with the number of times it occurs.
pub fn count_words(words: &Vec<&str>) -> (r: Vec<WordCount>)
    requires
        words.len() <= u32::MAX,
    ensures
        counts_words(r@, texts(words@)),
{
    let ghost s = texts(words@);
    let mut seen: Vec<String> = Vec::new();
    let mut counts: Vec<u32> = Vec::new();
    let mut k: usize = 0;
    while k < words.len()
        invariant
            words.len() <= u32::MAX,
            s == texts(words@),
            k <= words.len(),
            seen.len() == counts.len(),
            forall|i: int, j: int| 0 <= i < j < seen.len() ==> #[trigger] seen@[i]@ != #[trigger] seen@[j]@,
            forall|i: int|
                0 <= i < seen.len() ==> #[trigger] counts@[i] == occurrences(s.take(k as int), seen@[i]@),
            forall|i: int| 0 <= i < seen.len() ==> s.take(k as int).contains(#[trigger] seen@[i]@),
            forall|m: int| 0 <= m < k ==> #[trigger] has_text(seen@, s[m]),
        decreases words.len() - k,
    {
        let w = words[k];
        let ghost pre = s.take(k as int);
        let ghost post = s.take(k + 1);
        proof {
            assert(post.drop_last() =~= pre);
            assert(post.last() == w@);
        }
        let ghost old_seen = seen@;
        let ghost old_counts = counts@;
        let pos = position_of(&seen, w);
        let found = pos.is_some();
        let i: usize = match pos {
            Some(p) => p,
            None => 0,
        };
        if found {
            proof {
                lemma_occurrences_bound(pre, w@);
            }
            let c = counts[i] + 1;
            counts.set(i, c);
        } else {
            proof {
                lemma_occurrences_bound(pre, w@);
            }
            seen.push(String::from_str(w));
            counts.push(1);
        }
        proof {
            assert forall|j: int| 0 <= j < seen.len() implies #[trigger] counts@[j] == occurrences(
                post,
                seen@[j]@,
            ) && post.contains(seen@[j]@) by {
                assert(occurrences(post, seen@[j]@) == occurrences(pre, seen@[j]@) + if w@
                    == seen@[j]@ {
                    1nat
                } else {
                    0nat
                });
                if found && j == i {
                    assert(counts@[j] == old_counts[j] + 1);
                } else if !found && j == old_seen.len() {
                    if pre.contains(w@) {
                        let m = choose|m: int| 0 <= m < pre.len() && pre[m] == w@;
                        assert(pre[m] == s[m]);
                        assert(has_text(old_seen, s[m]));
                        let a = choose|a: int| 0 <= a < old_seen.len() && old_seen[a]@ == s[m];
                        assert(old_seen[a]@ != w@);
                    }
                } else {
                    assert(counts@[j] == old_counts[j]);
                    assert(seen@[j] == old_seen[j]);
                    if found {
                        assert(old_seen[j]@ != old_seen[i as int]@);
                    }
                }
                if pre.contains(seen@[j]@) {
                    let m = choose|m: int| 0 <= m < pre.len() && pre[m] == seen@[j]@;
                    assert(post[m] == seen@[j]@);
                } else {
                    assert(post[k as int] == seen@[j]@);
                }
            }
            assert forall|m: int| 0 <= m < k + 1 implies #[trigger] has_text(seen@, s[m]) by {
                if m == k {
                    if found {
                        assert(seen@[i as int]@ == s[m]);
                    } else {
                        assert(seen@[seen.len() - 1]@ == s[m]);
                    }
                } else {
                    assert(has_text(old_seen, s[m]));
                    let j = choose|j: int| 0 <= j < old_seen.len() && old_seen[j]@ == s[m];
                    assert(seen@[j]@ == s[m]);
                }
            }
        }
        k = k + 1;
    }
    proof {
        assert(s.len() == words.len());
        assert(s.take(k as int) =~= s);
        assert forall|m: int| 0 <= m < s.len() implies #[trigger] has_text(seen@, s[m]) by {
            assert(has_text(seen@, s.take(k as int)[m]));
        }
    }
    let mut r: Vec<WordCount> = Vec::new();
    let mut i: usize = 0;
    while i < seen.len()
        invariant
            seen.len() == counts.len(),
            i <= seen.len(),
            r.len() == i,
            forall|j: int| 0 <= j < i ==> #[trigger] r@[j].word@ == seen@[j]@ && r@[j].count == counts@[j],
            forall|a: int, b: int| 0 <= a < b < seen.len() ==> #[trigger] seen@[a]@ != #[trigger] seen@[b]@,
            forall|a: int| 0 <= a < seen.len() ==> #[trigger] counts@[a] == occurrences(s, seen@[a]@),
            forall|a: int| 0 <= a < seen.len() ==> s.contains(#[trigger] seen@[a]@),
            forall|m: int| 0 <= m < s.len() ==> #[trigger] has_text(seen@, s[m]),
        decreases seen.len() - i,
    {
        r.push(WordCount { word: seen[i].clone(), count: counts[i] });
        i = i + 1;
    }
    proof {
        assert forall|k2: int| 0 <= k2 < s.len() implies #[trigger] has_word(r@, s[k2]) by {
            assert(has_text(seen@, s[k2]));
            let j = choose|j: int| 0 <= j < seen.len() && seen@[j]@ == s[k2];
            assert(r@[j].word@ == s[k2]);
        }
        assert forall|a: int, b: int| 0 <= a < b < r.len() implies #[trigger] r@[a].word@
            != #[trigger] r@[b].word@ by {
            assert(seen@[a]@ != seen@[b]@);
        }
        assert forall|a: int| 0 <= a < r.len() implies #[trigger] r@[a].count == occurrences(
            s,
            r@[a].word@,
        ) by {
            assert(counts@[a] == occurrences(s, seen@[a]@));
        }
        assert forall|a: int| 0 <= a < r.len() implies s.contains(#[trigger] r@[a].word@) by {
            assert(s.contains(seen@[a]@));
        }
    }
    r
}

/// Counting occurrences: none in no words, and one more word adds one to
/// its own count and nothing to any other.
pub proof fn law_occurrences_count_each_word(s: Seq<Seq<char>>, x: Seq<char>, w: Seq<char>)
    ensures
        occurrences(Seq::<Seq<char>>::empty(), w) == 0,
        occurrences(s.push(w), w) == occurrences(s, w) + 1,
        x != w ==> occurrences(s.push(x), w) == occurrences(s, w),
        occurrences(s, w) <= s.len(),
        occurrences(s, w) > 0 <==> s.contains(w),
{
    assert(s.push(w).drop_last() =~= s);
    assert(s.push(x).drop_last() =~= s);
    lemma_occurrences_bound(s, w);
}

} // verus!
