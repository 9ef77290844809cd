//! Reading the parameters of a request: the query string, the form fields
//! of the body, and the cookies.

use vstd::prelude::*;

use crate::text::chars_of;
use crate::text::cut;
use crate::text::find;
use crate::text::lemma_index_of;
use crate::text::lemma_index_of_skip;
use crate::text::lemma_index_of_subrange;
use crate::text::lemma_split_head;
use crate::text::same_text;
use crate::text::split;
use crate::varmap::VarMap;

verus! {

/// The name of the header that carries cookies, as the HTTP layer spells
/// header names.
pub const COOKIE_HEADER: &'static str = "cookie";

/// Whether `piece` holds a name and a value: it does if it holds a `=`.
pub open spec fn has_pair(piece: Seq<char>) -> bool {
    split(piece, '=').len() >= 2
}

/// The name in `piece`: what stands before the first `=`.
pub open spec fn pair_name(piece: Seq<char>) -> Seq<char> {
    split(piece, '=')[0]
}

/// The value in `piece`: what stands between the first `=` and the second,
/// or the end.
pub open spec fn pair_value(piece: Seq<char>) -> Seq<char> {
    split(piece, '=')[1]
}

/// Whether each piece holds a name and a value.
pub open spec fn all_pairs(pieces: Seq<Seq<char>>) -> bool {
    forall|i: int| 0 <= i < pieces.len() ==> has_pair(#[trigger] pieces[i])
}

/// `base` after each piece's value was put under its name, piece by piece:
/// of two values for one name the later stays.
pub open spec fn with_pairs(base: Map<Seq<char>, Seq<char>>, pieces: Seq<Seq<char>>) -> Map<
    Seq<char>,
    Seq<char>,
>
    decreases pieces.len(),
{
    if pieces.len() == 0 {
        base
    } else {
        with_pairs(base, pieces.drop_last()).insert(
            pair_name(pieces.last()),
            pair_value(pieces.last()),
        )
    }
}

/// The parameters that `text` spells when it is cut at every `sep`, if each
/// piece holds a name and a value.
pub open spec fn parse_pairs(text: Seq<char>, sep: char) -> Option<Map<Seq<char>, Seq<char>>> {
    if all_pairs(split(text, sep)) {
        Some(with_pairs(Map::empty(), split(text, sep)))
    } else {
        None
    }
}

/// The pieces of all cookie headers, in the order of the headers: the value
/// of each header named `cookie`, cut at every `;`.
pub open spec fn cookie_pieces(headers: Seq<(String, String)>) -> Seq<Seq<char>>
    decreases headers.len(),
{
    if headers.len() == 0 {
        Seq::empty()
    } else if headers.last().0@ == COOKIE_HEADER@ {
        cookie_pieces(headers.drop_last()) + split(headers.last().1@, ';')
    } else {
        cookie_pieces(headers.drop_last())
    }
}

/// Putting the pairs of two lists in, one list after the other, is putting
/// in the pairs of the joined list.
pub proof fn lemma_with_pairs_add(
    base: Map<Seq<char>, Seq<char>>,
    first: Seq<Seq<char>>,
    second: Seq<Seq<char>>,
)
    ensures
        with_pairs(with_pairs(base, first), second) == with_pairs(base, first + second),
    decreases second.len(),
{
    if second.len() == 0 {
        assert(first + second == first);
    } else {
        lemma_with_pairs_add(base, first, second.drop_last());
        assert((first + second).drop_last() == first + second.drop_last());
        assert((first + second).last() == second.last());
    }
}

/// Puts the pairs that `text` spells into `map`. Gives `false`, and leaves
/// `map` half filled, if a piece holds no `=`.
fn insert_pairs(map: &mut VarMap, text: &str, sep: char) -> (complete: bool)
    ensures
        complete == all_pairs(split(text@, sep)),
        complete ==> final(map)@ == with_pairs(old(map)@, split(text@, sep)),
{
    let chars = chars_of(text);
    let len = chars.len();
    let mut start: usize = 0;
    let ghost mut done: Seq<Seq<char>> = Seq::empty();
    proof {
        assert(text@.skip(0) == text@);
        assert(done + split(text@, sep) == split(text@, sep));
    }
    loop
        invariant
            chars@ == text@,
            len == text@.len(),
            start <= len,
            split(text@, sep) == done + split(text@.skip(start as int), sep),
            all_pairs(done),
            map@ == with_pairs(old(map)@, done),
        decreases len - start,
    {
        let end = find(&chars, sep, start, len);
        let mark = find(&chars, '=', start, end);
        let ghost rest = text@.skip(start as int);
        let ghost piece = text@.subrange(start as int, end as int);
        proof {
            lemma_index_of(text@, sep, start as int);
            lemma_index_of_skip(text@, sep, start as int, 0);
            lemma_index_of(text@, '=', start as int);
            lemma_index_of_subrange(text@, '=', start as int, end as int, start as int);
            lemma_split_head(piece, '=');
            assert(rest.take(end - start) == piece);
            assert(end == len ==> rest == piece);
            assert(split(rest, sep)[0] == piece) by {
                lemma_split_head(rest, sep);
            }
        }
        if mark == end {
            proof {
                assert(!has_pair(piece));
                assert(split(text@, sep)[done.len() as int] == piece);
            }
            return false;
        }
        let stop = find(&chars, '=', mark + 1, end);
        proof {
            let tail = piece.skip(mark - start + 1);
            lemma_index_of(text@, '=', mark + 1);
            lemma_index_of_subrange(text@, '=', mark + 1, end as int, mark + 1);
            lemma_split_head(tail, '=');
            assert(tail == text@.subrange(mark + 1, end as int));
            assert(piece.take(mark - start) == text@.subrange(start as int, mark as int));
            assert(tail.take(stop - mark - 1) == text@.subrange(mark + 1, stop as int));
            assert(has_pair(piece));
            assert(pair_name(piece) == text@.subrange(start as int, mark as int));
            assert(pair_value(piece) == text@.subrange(mark + 1, stop as int));
        }
        map.insert(cut(text, start, mark), cut(text, mark + 1, stop));
        proof {
            let grown = done.push(piece);
            assert(grown.drop_last() == done);
            assert(grown.last() == piece);
            assert(all_pairs(grown));
            if end < len {
                assert(rest.skip(end - start + 1) == text@.skip(end + 1));
                assert(split(rest, sep) == seq![piece] + split(text@.skip(end + 1), sep));
                assert(done + (seq![piece] + split(text@.skip(end + 1), sep)) == grown + split(
                    text@.skip(end + 1),
                    sep,
                ));
            } else {
                assert(split(rest, sep) == seq![piece]);
                assert(done + seq![piece] == grown);
            }
            done = grown;
        }
        if end == len {
            proof {
                assert(split(text@, sep) == done);
            }
            return true;
        }
        start = end + 1;
    }
}

/// Reads the parameters of a query string, which are separated by `&`. A
/// request without a query string has none. `None` if a piece of the
/// string holds no `=`.
pub fn read_get(query: Option<&str>) -> (parameters: Option<VarMap>)
    ensures
        match query {
            Some(text) => match parameters {
                Some(map) => parse_pairs(text@, '&') == Some(map@),
                None => parse_pairs(text@, '&') is None,
            },
            None => parameters is Some && parameters->0@ == Map::<Seq<char>, Seq<char>>::empty(),
        },
{
    let mut map = VarMap::new();
    match query {
        Some(text) => {
            if insert_pairs(&mut map, text, '&') {
                Some(map)
            } else {
                None
            }
        },
        None => Some(map),
    }
}

/// Reads the form fields of a request body, which are separated by `&`.
/// `None` if a piece of the body holds no `=`.
pub fn read_post(body: &str) -> (fields: Option<VarMap>)
    ensures
        match fields {
            Some(map) => parse_pairs(body@, '&') == Some(map@),
            None => parse_pairs(body@, '&') is None,
        },
{
    let mut map = VarMap::new();
    if insert_pairs(&mut map, body, '&') {
        Some(map)
    } else {
        None
    }
}

/// Reads the cookies of a request from its headers, each a name and a
/// value. Every header named `cookie` counts; its cookies are separated by
/// `;`. `None` if a piece of such a header holds no `=`.
pub fn read_cookies(headers: &Vec<(String, String)>) -> (cookies: Option<VarMap>)
    ensures
        match cookies {
            Some(map) => all_pairs(cookie_pieces(headers@)) && map@ == with_pairs(
                Map::empty(),
                cookie_pieces(headers@),
            ),
            None => !all_pairs(cookie_pieces(headers@)),
        },
{
    let mut map = VarMap::new();
    let mut i: usize = 0;
    while i < headers.len()
        invariant
            i <= headers@.len(),
            all_pairs(cookie_pieces(headers@.take(i as int))),
            map@ == with_pairs(Map::empty(), cookie_pieces(headers@.take(i as int))),
        decreases headers@.len() - i,
    {
        let ghost seen = headers@.take(i as int);
        let ghost next = headers@.take(i + 1);
        proof {
            assert(next.drop_last() == seen);
            assert(next.last() == headers@[i as int]);
        }
        if same_text(headers[i].0.as_str(), COOKIE_HEADER) {
            let ghost pieces = split(headers@[i as int].1@, ';');
            let complete = insert_pairs(&mut map, headers[i].1.as_str(), ';');
            if !complete {
                proof {
                    lemma_cookie_pieces_prefix(headers@, i + 1);
                    let bad = choose|k: int| 0 <= k < pieces.len() && !has_pair(#[trigger] pieces[k]);
                    let at = cookie_pieces(seen).len() + bad;
                    assert(cookie_pieces(next)[at] == pieces[bad]);
                    assert(cookie_pieces(headers@)[at] == pieces[bad]);
                }
                return None;
            }
            proof {
                lemma_with_pairs_add(Map::empty(), cookie_pieces(seen), pieces);
            }
        }
        i += 1;
    }
    assert(headers@.take(headers@.len() as int) == headers@);
    Some(map)
}

/// The cookie pieces of the first `n` headers are the first of the cookie
/// pieces of all headers.
proof fn lemma_cookie_pieces_prefix(headers: Seq<(String, String)>, n: int)
    requires
        0 <= n <= headers.len(),
    ensures
        cookie_pieces(headers.take(n)).len() <= cookie_pieces(headers).len(),
        cookie_pieces(headers.take(n)) == cookie_pieces(headers).take(
            cookie_pieces(headers.take(n)).len() as int,
        ),
    decreases headers.len() - n,
{
    if n == headers.len() {
        assert(headers.take(n) == headers);
        assert(cookie_pieces(headers).take(cookie_pieces(headers).len() as int) == cookie_pieces(
            headers,
        ));
    } else {
        lemma_cookie_pieces_prefix(headers, n + 1);
        let shorter = headers.take(n);
        let longer = headers.take(n + 1);
        assert(longer.drop_last() == shorter);
        assert(cookie_pieces(shorter) == cookie_pieces(longer).take(
            cookie_pieces(shorter).len() as int,
        ));
        assert(cookie_pieces(shorter) == cookie_pieces(headers).take(
            cookie_pieces(shorter).len() as int,
        ));
    }
}

} // verus!
