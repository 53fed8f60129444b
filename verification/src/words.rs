//! Finding the first word of a text, and the last character of its first
//! line.

use vstd::prelude::*;

verus! {

use crate::text::{split_lines, strip_cr};

/// The index of the first space in `s`, or `s.len()` if there is none.
pub open spec fn first_space(s: Seq<char>) -> nat
    decreases s.len(),
{
    if s.len() == 0 {
        0
    } else if s[0] == ' ' {
        0
    } else {
        1 + first_space(s.drop_first())
    }
}

/// `first_space` is pinned down by what the prefix looks like: no space
/// before `i`, and a space (or the end) at `i`.
proof fn lemma_first_space_at(s: Seq<char>, i: int)
    requires
        0 <= i <= s.len(),
        forall|k: int| 0 <= k < i ==> s[k] != ' ',
        i < s.len() ==> s[i] == ' ',
    ensures
        first_space(s) == i,
    decreases i,
{
    if i == 0 {
        if s.len() > 0 {
            assert(s[0] == ' ');
        }
    } else {
        assert(s[0] != ' ');
        assert(forall|k: int| 0 <= k < i - 1 ==> s.drop_first()[k] == s[k + 1]);
        lemma_first_space_at(s.drop_first(), i - 1);
    }
}

/// The index just past the first word: the position of the first space, or
/// the length of the text if it has no space.
pub fn first_word(s: &String) -> (r: usize)
    ensures
        r == first_space(s@),
{
    let t = s.as_str();
    let n = t.unicode_len();
    let mut i: usize = 0;
    while i < n
        invariant
            n == s@.len(),
            t@ == s@,
            i <= n,
            forall|k: int| 0 <= k < i ==> s@[k] != ' ',
        decreases n - i,
    {
        if t.get_char(i) == ' ' {
            proof {
                lemma_first_space_at(s@, i as int);
            }
            return i;
        }
        i = i + 1;
    }
    proof {
        lemma_first_space_at(s@, n as int);
    }
    n
}

/// The first word itself, as a slice of the text.
pub fn first_word2<'a>(s: &'a String) -> (r: &'a str)
    ensures
        r@ == s@.take(first_space(s@) as int),
{
    first_word3(s.as_str())
}

/// The first word of a string slice: everything before the first space.
pub fn first_word3<'a>(s: &'a str) -> (r: &'a str)
    ensures
        r@ == s@.take(first_space(s@) as int),
{
    let n = s.unicode_len();
    let mut i: usize = 0;
    while i < n
        invariant
            n == s@.len(),
            i <= n,
            forall|k: int| 0 <= k < i ==> s@[k] != ' ',
        decreases n - i,
    {
        if s.get_char(i) == ' ' {
            proof {
                lemma_first_space_at(s@, i as int);
            }
            return s.substring_char(0, i);
        }
        i = i + 1;
    }
    proof {
        lemma_first_space_at(s@, n as int);
        assert(s@.take(n as int) =~= s@);
    }
    s.substring_char(0, n)
}

/// What `last_char_of_first_line` answers: the last character of the first
/// line, if the text has a first line with any character in it.
pub open spec fn spec_last_char_of_first_line(text: Seq<char>) -> Option<char> {
    if text.len() == 0 {
        None
    } else {
        let l = split_lines(text).first();
        if l.len() == 0 {
            None
        } else {
            Some(l.last())
        }
    }
}

/// The last character of the first line of `text`, or nothing when the
/// text is empty or its first line is.
pub fn last_char_of_first_line(text: &str) -> (r: Option<char>)
    ensures
        r == spec_last_char_of_first_line(text@),
{
    let n = text.unicode_len();
    if n == 0 {
        return None;
    }
    let mut i: usize = 0;
    while i < n && text.get_char(i) != '\n'
        invariant
            n == text@.len(),
            i <= n,
            forall|k: int| 0 <= k < i ==> text@[k] != '\n',
        decreases n - i,
    {
        i = i + 1;
    }
    proof {
        crate::text::lemma_first_nl_at(text@, i as int);
    }
    if i == n {
        // no newline: the first line is the whole text
        proof {
            assert(split_lines(text@).first() == text@);
        }
        Some(text.get_char(n - 1))
    } else {
        proof {
            assert(split_lines(text@).first() == strip_cr(text@.take(i as int)));
        }
        if i == 0 {
            None
        } else if text.get_char(i - 1) == '\r' {
            if i == 1 {
                proof {
                    assert(strip_cr(text@.take(1)).len() == 0);
                }
                None
            } else {
                proof {
                    assert(strip_cr(text@.take(i as int)) =~= text@.take(i - 1));
                }
                Some(text.get_char(i - 2))
            }
        } else {
            Some(text.get_char(i - 1))
        }
    }
}

} // verus!
