//! Word frequencies: splitting a text into whitespace-separated words and
//! tallying how often each one occurs, with an association list in place
//! of a hash map so that every count is pinned down exactly.

use vstd::prelude::*;

verus! {

/// The separators between words: blank, tab, and the two line-ending
/// characters.
pub open spec fn is_space(c: char) -> bool {
    c == ' ' || c == '\t' || c == '\n' || c == '\r'
}

/// The index of the first separator in `s`, or `s.len()` if there is none.
pub open spec fn first_break(s: Seq<char>) -> nat
    decreases s.len(),
{
    if s.len() == 0 {
        0
    } else if is_space(s[0]) {
        0
    } else {
        1 + first_break(s.drop_first())
    }
}

/// The first separator comes no later than the end of the text.
proof fn lemma_first_break_le(s: Seq<char>)
    ensures
        first_break(s) <= s.len(),
    decreases s.len(),
{
    if s.len() > 0 && !is_space(s[0]) {
        lemma_first_break_le(s.drop_first());
    }
}

/// `first_break` is pinned down by what the prefix looks like: no
/// separator before `i`, and a separator (or the end) at `i`.
proof fn lemma_first_break_at(s: Seq<char>, i: int)
    requires
        0 <= i <= s.len(),
        forall|k: int| 0 <= k < i ==> !is_space(s[k]),
        i < s.len() ==> is_space(s[i]),
    ensures
        first_break(s) == i,
    decreases i,
{
    if i == 0 {
        if s.len() > 0 {
            assert(is_space(s[0]));
        }
    } else {
        assert(!is_space(s[0]));
        assert(forall|k: int| 0 <= k < i - 1 ==> s.drop_first()[k] == s[k + 1]);
        lemma_first_break_at(s.drop_first(), i - 1);
    }
}

/// The words of `s`: the maximal runs of non-separator characters, in
/// order. Runs of separators, leading or trailing ones included, vanish.
pub open spec fn split_words(s: Seq<char>) -> Seq<Seq<char>>
    decreases s.len(),
    via split_words_decreases
{
    if s.len() == 0 {
        Seq::empty()
    } else if is_space(s[0]) {
        split_words(s.drop_first())
    } else {
        let i = first_break(s) as int;
        seq![s.take(i)] + split_words(s.skip(i))
    }
}

#[via_fn]
proof fn split_words_decreases(s: Seq<char>) {
    lemma_first_break_le(s);
}

/// How often the word `w` occurs among `ws`.
pub open spec fn count_word(ws: Seq<Seq<char>>, w: Seq<char>) -> nat
    decreases ws.len(),
{
    if ws.len() == 0 {
        0
    } else {
        count_word(ws.drop_last(), w) + (if ws.last() == w {
            1nat
        } else {
            0nat
        })
    }
}

/// A word can only be counted among the words it stands in.
proof fn lemma_count_pos_implies_contains(ws: Seq<Seq<char>>, w: Seq<char>)
    requires
        count_word(ws, w) > 0,
    ensures
        exists|m: int| 0 <= m < ws.len() && ws[m] == w,
    decreases ws.len(),
{
    if ws.last() == w {
        assert(ws[ws.len() - 1] == w);
    } else {
        lemma_count_pos_implies_contains(ws.drop_last(), w);
        let m = choose|m: int| 0 <= m < ws.drop_last().len() && ws.drop_last()[m] == w;
        assert(ws[m] == w);
    }
}

/// Whether `c` separates words.
fn is_space_char(c: char) -> (r: bool)
    ensures
        r == is_space(c),
{
    c == ' ' || c == '\t' || c == '\n' || c == '\r'
}

/// Splits `s` into its words, exactly as `split_words` describes.
pub fn words_of<'a>(s: &'a str) -> (r: Vec<&'a str>)
    ensures
        r@.map_values(|t: &str| t@) == split_words(s@),
{
    let n = s.unicode_len();
    let mut r: Vec<&str> = Vec::new();
    let mut i: usize = 0;
    proof {
        assert(r@.map_values(|t: &str| t@) =~= Seq::<Seq<char>>::empty());
        assert(s@.skip(0) =~= s@);
        assert(r@.map_values(|t: &str| t@) + split_words(s@) =~= split_words(s@));
    }
    while i < n
        invariant
            n == s@.len(),
            i <= n,
            split_words(s@) == r@.map_values(|t: &str| t@) + split_words(s@.skip(i as int)),
        decreases n - i,
    {
        let c = s.get_char(i);
        if is_space_char(c) {
            proof {
                assert(s@.skip(i as int).drop_first() =~= s@.skip(i + 1));
                assert(is_space(s@.skip(i as int)[0]));
            }
            i = i + 1;
        } else {
            let start = i;
            i = i + 1;
            while i < n && !is_space_char(s.get_char(i))
                invariant
                    n == s@.len(),
                    start < i <= n,
                    forall|k: int| start <= k < i ==> !is_space(s@[k]),
                decreases n - i,
            {
                i = i + 1;
            }
            let word = s.substring_char(start, i);
            proof {
                let t = s@.skip(start as int);
                assert(forall|k: int| 0 <= k < i - start ==> t[k] == s@[start + k]);
                lemma_first_break_at(t, i - start as int);
                assert(t.take(i - start as int) =~= s@.subrange(start as int, i as int));
                assert(t.skip(i - start as int) =~= s@.skip(i as int));
                assert(word@ =~= t.take(i - start as int));
                assert(split_words(t) == seq![word@] + split_words(s@.skip(i as int)));
                assert(r@.push(word).map_values(|t: &str| t@) =~= r@.map_values(|t: &str| t@)
                    + seq![word@]);
                assert(r@.map_values(|t: &str| t@) + (seq![word@] + split_words(
                    s@.skip(i as int),
                )) =~= (r@.map_values(|t: &str| t@) + seq![word@]) + split_words(
                    s@.skip(i as int),
                ));
            }
            r.push(word);
        }
    }
    proof {
        assert(s@.skip(n as int) =~= Seq::<char>::empty());
        assert(r@.map_values(|t: &str| t@) + split_words(s@.skip(n as int)) =~= r@.map_values(
            |t: &str| t@,
        ));
    }
    r
}

/// Tallies the words of `text`: one entry per distinct word, in order of
/// first appearance, each with exactly its number of occurrences.
pub fn word_tally(text: &str) -> (r: Vec<(String, u64)>)
    ensures
        forall|i: int, j: int| 0 <= i < j < r@.len() ==> r@[i].0@ != r@[j].0@,
        forall|i: int|
            0 <= i < r@.len() ==> (#[trigger] r@[i]).1 == count_word(
                split_words(text@),
                r@[i].0@,
            ),
        forall|i: int| 0 <= i < r@.len() ==> (#[trigger] r@[i]).1 >= 1,
        forall|m: int|
            0 <= m < split_words(text@).len() ==> exists|i: int|
                0 <= i < r@.len() && r@[i].0@ == #[trigger] split_words(text@)[m],
{
    let words = words_of(text);
    let ghost ws = words@.map_values(|t: &str| t@);
    let mut r: Vec<(String, u64)> = Vec::new();
    let mut k: usize = 0;
    proof {
        assert(ws.take(0) =~= Seq::<Seq<char>>::empty());
    }
    while k < words.len()
        invariant
            ws == words@.map_values(|t: &str| t@),
            ws == split_words(text@),
            k <= words@.len(),
            forall|i: int, j: int| 0 <= i < j < r@.len() ==> r@[i].0@ != r@[j].0@,
            forall|i: int|
                0 <= i < r@.len() ==> (#[trigger] r@[i]).1 == count_word(
                    ws.take(k as int),
                    r@[i].0@,
                ),
            forall|i: int| 0 <= i < r@.len() ==> 1 <= (#[trigger] r@[i]).1 <= k,
            forall|m: int|
                0 <= m < k ==> exists|i: int| 0 <= i < r@.len() && r@[i].0@ == #[trigger] ws[m],
        decreases words@.len() - k,
    {
        let word = String::from_str(words[k]);
        let mut found = false;
        let mut j: usize = 0;
        proof {
            assert(ws.take(k + 1).drop_last() =~= ws.take(k as int));
            assert(ws.take(k + 1).last() == word@);
        }
        while j < r.len() && !found
            invariant
                j <= r@.len(),
                word@ == ws[k as int],
                k < ws.len(),
                forall|i: int, jj: int| 0 <= i < jj < r@.len() ==> r@[i].0@ != r@[jj].0@,
                !found ==> forall|jj: int| 0 <= jj < j ==> (#[trigger] r@[jj]).0@ != word@,
                found ==> j < r@.len() && r@[j as int].0@ == word@,
            decreases r@.len() - j + (if found {
                0int
            } else {
                1int
            }),
        {
            if r[j].0 == word {
                found = true;
            } else {
                j = j + 1;
            }
        }
        if found {
            let ghost before = r@;
            let key = r[j].0.clone();
            let c = r[j].1;
            r.set(j, (key, c + 1));
            proof {
                assert forall|i: int| 0 <= i < r@.len() implies (#[trigger] r@[i]).0@
                    == before[i].0@ by {
                    if i != j {
                        assert(r@[i] == before[i]);
                    }
                }
                assert forall|i: int|
                    0 <= i < r@.len() implies (#[trigger] r@[i]).1 == count_word(
                    ws.take(k + 1),
                    r@[i].0@,
                ) by {
                    if i == j {
                        assert(r@[i].0@ == word@);
                    } else {
                        assert(r@[i] == before[i]);
                        assert(r@[i].0@ != word@);
                    }
                }
                assert forall|m: int|
                    0 <= m < k + 1 implies exists|i: int|
                    0 <= i < r@.len() && r@[i].0@ == #[trigger] ws[m] by {
                    if m == k as int {
                        assert(r@[j as int].0@ == ws[m]);
                    } else {
                        let i = choose|i: int| 0 <= i < before.len() && before[i].0@ == ws[m];
                        assert(r@[i].0@ == ws[m]);
                    }
                }
            }
        } else {
            let ghost before = r@;
            proof {
                if count_word(ws.take(k as int), word@) > 0 {
                    lemma_count_pos_implies_contains(ws.take(k as int), word@);
                    let m = choose|m: int|
                        0 <= m < ws.take(k as int).len() && ws.take(k as int)[m] == word@;
                    assert(ws[m] == word@);
                    let i = choose|i: int| 0 <= i < r@.len() && r@[i].0@ == ws[m];
                    assert(r@[i].0@ == word@);
                }
            }
            r.push((word, 1));
            proof {
                assert forall|i: int|
                    0 <= i < r@.len() implies (#[trigger] r@[i]).1 == count_word(
                    ws.take(k + 1),
                    r@[i].0@,
                ) by {
                    if i < r@.len() - 1 {
                        assert(r@[i] == before[i]);
                        assert(r@[i].0@ != ws[k as int]);
                    }
                }
                assert forall|m: int|
                    0 <= m < k + 1 implies exists|i: int|
                    0 <= i < r@.len() && r@[i].0@ == #[trigger] ws[m] by {
                    if m == k as int {
                        assert(r@[r@.len() - 1].0@ == ws[m]);
                    } else {
                        let i = choose|i: int| 0 <= i < before.len() && before[i].0@ == ws[m];
                        assert(r@[i].0@ == ws[m]);
                    }
                }
            }
        }
        k = k + 1;
    }
    proof {
        assert(ws.take(words@.len() as int) =~= ws);
    }
    r
}

} // verus!
