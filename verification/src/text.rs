//! Character-level helpers on strings: comparing, searching, cutting and
//! splitting at a separator.

use vstd::prelude::*;
use vstd::std_specs::iter::IteratorSpec;

verus! {

/// What each string of a list holds.
pub open spec fn texts(list: Seq<String>) -> Seq<Seq<char>> {
    list.map_values(|text: String| text@)
}

/// The first position at or after `from` where `s` holds `c`; the length of
/// `s` if there is none.
pub open spec fn index_of(s: Seq<char>, c: char, from: int) -> int
    decreases s.len() - from,
{
    if from < 0 || from >= s.len() {
        s.len() as int
    } else if s[from] == c {
        from
    } else {
        index_of(s, c, from + 1)
    }
}

/// The pieces of `s` between the occurrences of `sep`. There is always at
/// least one piece; a piece may be empty.
pub open spec fn split(s: Seq<char>, sep: char) -> Seq<Seq<char>>
    decreases s.len(),
{
    let cut = index_of(s, sep, 0);
    if cut < 0 || cut >= s.len() {
        seq![s]
    } else {
        seq![s.take(cut)] + split(s.skip(cut + 1), sep)
    }
}

/// `index_of` stays within `from..=s.len()`, finds `c` if it stops before the
/// end, and passes over no `c`.
pub proof fn lemma_index_of(s: Seq<char>, c: char, from: int)
    requires
        0 <= from <= s.len(),
    ensures
        from <= index_of(s, c, from) <= s.len(),
        index_of(s, c, from) < s.len() ==> s[index_of(s, c, from)] == c,
        forall|i: int| from <= i < index_of(s, c, from) ==> s[i] != c,
    decreases s.len() - from,
{
    if from < s.len() && s[from] != c {
        lemma_index_of(s, c, from + 1);
    }
}

/// Searching a suffix of `s` is searching `s` from where the suffix starts.
pub proof fn lemma_index_of_skip(s: Seq<char>, c: char, start: int, from: int)
    requires
        0 <= start <= s.len(),
        0 <= from <= s.len() - start,
    ensures
        index_of(s.skip(start), c, from) == index_of(s, c, start + from) - start,
    decreases s.len() - start - from,
{
    if from < s.len() - start {
        assert(s.skip(start)[from] == s[start + from]);
        if s[start + from] != c {
            lemma_index_of_skip(s, c, start, from + 1);
        }
    }
}

/// Searching a prefix of `s` is searching `s` and stopping where the prefix
/// ends.
pub proof fn lemma_index_of_take(s: Seq<char>, c: char, end: int, from: int)
    requires
        0 <= from <= end <= s.len(),
    ensures
        index_of(s.take(end), c, from) == if index_of(s, c, from) < end {
            index_of(s, c, from)
        } else {
            end
        },
    decreases end - from,
{
    lemma_index_of(s, c, from);
    if from < end {
        assert(s.take(end)[from] == s[from]);
        if s[from] != c {
            lemma_index_of_take(s, c, end, from + 1);
        }
    }
}

/// Searching the part of `s` between `a` and `b` is searching `s` from the
/// same place and stopping at `b`.
pub proof fn lemma_index_of_subrange(s: Seq<char>, c: char, a: int, b: int, from: int)
    requires
        0 <= a <= from <= b <= s.len(),
    ensures
        index_of(s.subrange(a, b), c, from - a) == if index_of(s, c, from) < b {
            index_of(s, c, from) - a
        } else {
            b - a
        },
{
    assert(s.subrange(a, b) == s.skip(a).take(b - a));
    lemma_index_of_take(s.skip(a), c, b - a, from - a);
    lemma_index_of_skip(s, c, a, from - a);
}

/// The first piece of a split ends at the first separator, and a second piece
/// exists exactly if there is a separator.
pub proof fn lemma_split_head(s: Seq<char>, sep: char)
    ensures
        split(s, sep).len() >= 1,
        split(s, sep)[0] == s.take(index_of(s, sep, 0)),
        split(s, sep).len() >= 2 <==> index_of(s, sep, 0) < s.len(),
        index_of(s, sep, 0) < s.len() ==> split(s, sep)[1] == split(
            s.skip(index_of(s, sep, 0) + 1),
            sep,
        )[0],
{
    let cut = index_of(s, sep, 0);
    lemma_index_of(s, sep, 0);
    if cut >= s.len() {
        assert(s.take(cut) == s);
    } else {
        lemma_split_not_empty(s.skip(cut + 1), sep);
    }
}

/// A split has at least one piece.
pub proof fn lemma_split_not_empty(s: Seq<char>, sep: char)
    ensures
        split(s, sep).len() >= 1,
    decreases s.len(),
{
    let cut = index_of(s, sep, 0);
    lemma_index_of(s, sep, 0);
    if cut < s.len() {
        lemma_split_not_empty(s.skip(cut + 1), sep);
    }
}

/// Whether two strings hold the same characters.
pub fn same_text(a: &str, b: &str) -> (same: bool)
    ensures
        same == (a@ == b@),
{
    broadcast use vstd::string::group_string_axioms;

    let mut xs = a.chars();
    let mut ys = b.chars();
    let ghost mut n: int = 0;
    loop
        invariant
            0 <= n <= a@.len(),
            n <= b@.len(),
            a@.take(n) == b@.take(n),
            xs.remaining() == a@.skip(n),
            ys.remaining() == b@.skip(n),
        decreases a@.len() - n,
    {
        let x = xs.next();
        let y = ys.next();
        match (x, y) {
            (None, None) => {
                assert(a@ == a@.take(n));
                assert(b@ == b@.take(n));
                return true;
            },
            (Some(c), Some(d)) => {
                if c != d {
                    assert(a@[n] != b@[n]);
                    return false;
                }
                proof {
                    assert(a@.take(n + 1) == a@.take(n).push(a@[n]));
                    assert(b@.take(n + 1) == b@.take(n).push(b@[n]));
                    assert(a@.skip(n).drop_first() == a@.skip(n + 1));
                    assert(b@.skip(n).drop_first() == b@.skip(n + 1));
                    n = n + 1;
                }
            },
            _ => {
                assert(a@.len() != b@.len());
                return false;
            },
        }
    }
}

/// The characters of `text`, one by one.
pub fn chars_of(text: &str) -> (chars: Vec<char>)
    ensures
        chars@ == text@,
{
    broadcast use vstd::string::group_string_axioms;

    let mut chars: Vec<char> = Vec::new();
    let mut rest = text.chars();
    loop
        invariant
            chars@.len() <= text@.len(),
            chars@ == text@.take(chars@.len() as int),
            rest.remaining() == text@.skip(chars@.len() as int),
        decreases text@.len() - chars@.len(),
    {
        let ghost n = chars@.len() as int;
        match rest.next() {
            Some(c) => {
                chars.push(c);
                proof {
                    assert(text@.take(n + 1) == text@.take(n).push(text@[n]));
                    assert(text@.skip(n).drop_first() == text@.skip(n + 1));
                }
            },
            None => {
                assert(text@ == text@.take(n));
                return chars;
            },
        }
    }
}

/// The first position at or after `from`, and before `end`, where `chars`
/// holds `c`; `end` if there is none.
pub fn find(chars: &Vec<char>, c: char, from: usize, end: usize) -> (at: usize)
    requires
        from <= end <= chars@.len(),
    ensures
        from <= at <= end,
        at == if index_of(chars@, c, from as int) < end {
            index_of(chars@, c, from as int)
        } else {
            end as int
        },
{
    let mut i: usize = from;
    while i < end
        invariant
            from <= i <= end <= chars@.len(),
            index_of(chars@, c, from as int) == index_of(chars@, c, i as int),
        decreases end - i,
    {
        if chars[i] == c {
            return i;
        }
        i += 1;
    }
    proof {
        lemma_index_of(chars@, c, i as int);
    }
    i
}

/// The characters of `text` from `from` up to `to`, as a string of their own.
pub fn cut(text: &str, from: usize, to: usize) -> (piece: String)
    requires
        from <= to <= text@.len(),
    ensures
        piece@ == text@.subrange(from as int, to as int),
{
    text.substring_char(from, to).to_owned()
}

} // verus!
