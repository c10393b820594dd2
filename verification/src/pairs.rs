//! `key: value` lines of a response, and looking a key up among them.

use vstd::prelude::*;
use crate::text::{chars_of, split_once, split_once_chars, string_of_range};

verus! {

/// One line of a server response, as the caller read it.
pub struct ResponseLine {
    /// The line, without its line ending.
    pub text: String,
    /// The value after the line's first `": "` read as a floating-point
    /// number of seconds and truncated to whole seconds, saturating at the
    /// bounds of `u32`; `None` where the line has no `": "` or the value
    /// is not a number. The caller reads it, as floating point has no place
    /// in this library.
    pub seconds: Option<u32>,
}

/// A `key: value` pair taken from a response line.
pub struct Pair {
    pub key: String,
    pub value: String,
    /// The value read as whole seconds (see [`ResponseLine::seconds`]).
    pub seconds: Option<u32>,
}

/// The mathematical content of a [`Pair`].
pub struct PairView {
    pub key: Seq<char>,
    pub value: Seq<char>,
    pub seconds: Option<u32>,
}

impl View for Pair {
    type V = PairView;

    open spec fn view(&self) -> PairView {
        PairView { key: self.key@, value: self.value@, seconds: self.seconds }
    }
}

/// The views of a sequence of pairs.
pub open spec fn pair_views(ps: Seq<Pair>) -> Seq<PairView> {
    ps.map_values(|p: Pair| p@)
}

/// The pair a line holds: the text before its first `": "` and the text
/// after it (`split_once(": ")`).
pub open spec fn pair_of_line(line: ResponseLine) -> Option<PairView> {
    match split_once(line.text@, ": "@) {
        Some((key, value)) => Some(PairView { key, value, seconds: line.seconds }),
        None => None,
    }
}

/// The first pair with the given key.
pub open spec fn first_with_key(ps: Seq<PairView>, key: Seq<char>) -> Option<PairView>
    decreases ps.len(),
{
    if ps.len() == 0 {
        None
    } else if ps[0].key == key {
        Some(ps[0])
    } else {
        first_with_key(ps.drop_first(), key)
    }
}

/// The last pair with the given key: the one a map built from the pairs in
/// order keeps, as a later insertion replaces an earlier one.
pub open spec fn last_with_key(ps: Seq<PairView>, key: Seq<char>) -> Option<PairView>
    decreases ps.len(),
{
    if ps.len() == 0 {
        None
    } else if ps.last().key == key {
        Some(ps.last())
    } else {
        last_with_key(ps.drop_last(), key)
    }
}

/// The value of the first pair with the given key.
pub open spec fn first_value(ps: Seq<PairView>, key: Seq<char>) -> Option<Seq<char>> {
    match first_with_key(ps, key) {
        Some(p) => Some(p.value),
        None => None,
    }
}

/// The value of the last pair with the given key.
pub open spec fn last_value(ps: Seq<PairView>, key: Seq<char>) -> Option<Seq<char>> {
    match last_with_key(ps, key) {
        Some(p) => Some(p.value),
        None => None,
    }
}

/// Looking a key up finds the right pair: the first pair with the key is
/// one of the pairs, has the key, and no pair before it has it; the last
/// one likewise has no pair with the key after it; and neither lookup finds
/// anything only where no pair has the key.
pub proof fn lemma_key_lookup(ps: Seq<PairView>, key: Seq<char>)
    ensures
        first_with_key(ps, key) matches Some(p) ==> exists|i: int|
            0 <= i < ps.len() && ps[i] == p && p.key == key && forall|j: int|
                0 <= j < i ==> (#[trigger] ps[j]).key != key,
        last_with_key(ps, key) matches Some(p) ==> exists|i: int|
            0 <= i < ps.len() && ps[i] == p && p.key == key && forall|j: int|
                i < j < ps.len() ==> (#[trigger] ps[j]).key != key,
        first_with_key(ps, key) is None <==> forall|j: int|
            0 <= j < ps.len() ==> (#[trigger] ps[j]).key != key,
        last_with_key(ps, key) is None <==> forall|j: int|
            0 <= j < ps.len() ==> (#[trigger] ps[j]).key != key,
    decreases ps.len(),
{
    if ps.len() > 0 {
        let tail = ps.drop_first();
        let init = ps.drop_last();
        lemma_key_lookup(tail, key);
        lemma_key_lookup(init, key);
        assert forall|j: int| 0 < j < ps.len() implies ps[j] == tail[j - 1] by {}
        assert forall|j: int| 0 <= j < ps.len() - 1 implies ps[j] == init[j] by {}
        if ps[0].key != key {
            if let Some(p) = first_with_key(tail, key) {
                let i = choose|i: int|
                    0 <= i < tail.len() && tail[i] == p && p.key == key && forall|j: int|
                        0 <= j < i ==> (#[trigger] tail[j]).key != key;
                assert(ps[i + 1] == p);
                assert forall|j: int| 0 <= j < i + 1 implies (#[trigger] ps[j]).key != key by {
                    if j > 0 {
                        assert(ps[j] == tail[j - 1]);
                    }
                }
            }
            if first_with_key(tail, key) is None {
                assert forall|j: int| 0 <= j < ps.len() implies (#[trigger] ps[j]).key != key by {
                    if j > 0 {
                        assert(ps[j] == tail[j - 1]);
                    }
                }
            }
        } else {
            assert(ps[0].key == key);
        }
        if ps.last().key != key {
            if let Some(p) = last_with_key(init, key) {
                let i = choose|i: int|
                    0 <= i < init.len() && init[i] == p && p.key == key && forall|j: int|
                        i < j < init.len() ==> (#[trigger] init[j]).key != key;
                assert(ps[i] == p);
                assert forall|j: int| i < j < ps.len() implies (#[trigger] ps[j]).key != key by {
                    if j < ps.len() - 1 {
                        assert(ps[j] == init[j]);
                    }
                }
            }
            if last_with_key(init, key) is None {
                assert forall|j: int| 0 <= j < ps.len() implies (#[trigger] ps[j]).key != key by {
                    if j < ps.len() - 1 {
                        assert(ps[j] == init[j]);
                    }
                }
            }
        } else {
            assert(ps[ps.len() - 1].key == key);
        }
    }
}

/// The pair a line holds, split at its first `": "`.
pub fn split_line(line: &ResponseLine) -> (r: Option<Pair>)
    ensures
        match pair_of_line(*line) {
            Some(p) => r matches Some(q) && q@ == p,
            None => r is None,
        },
{
    let cs = chars_of(line.text.as_str());
    match split_once_chars(&cs, &chars_of(": ")) {
        Some((end, start)) => {
            let key = string_of_range(&cs, 0, end);
            let value = string_of_range(&cs, start, cs.len());
            assert(cs@.subrange(0, end as int) =~= cs@.take(end as int));
            assert(cs@.subrange(start as int, cs@.len() as int) =~= cs@.skip(start as int));
            Some(Pair { key, value, seconds: line.seconds })
        },
        None => None,
    }
}

/// The pairs of a response, in order; lines without `": "` are left out.
pub fn parse_pairs(lines: &[ResponseLine]) -> (r: Vec<Pair>)
    ensures
        pair_views(r@) == pairs_of_lines(lines@),
{
    let mut r: Vec<Pair> = Vec::new();
    let mut i: usize = 0;
    while i < lines.len()
        invariant
            i <= lines@.len(),
            pair_views(r@) == pairs_of_lines(lines@.take(i as int)),
        decreases lines@.len() - i,
    {
        let ghost before = r@;
        assert(lines@.take(i + 1).drop_last() =~= lines@.take(i as int));
        match split_line(&lines[i]) {
            Some(p) => {
                r.push(p);
                assert(pair_views(r@) =~= pair_views(before).push(r@.last()@));
            },
            None => {},
        }
        i = i + 1;
    }
    assert(lines@.take(lines@.len() as int) =~= lines@);
    r
}

/// The pairs the lines hold, in order.
pub open spec fn pairs_of_lines(lines: Seq<ResponseLine>) -> Seq<PairView>
    decreases lines.len(),
{
    if lines.len() == 0 {
        seq![]
    } else {
        match pair_of_line(lines.last()) {
            Some(p) => pairs_of_lines(lines.drop_last()).push(p),
            None => pairs_of_lines(lines.drop_last()),
        }
    }
}

/// Where the first pair with the given key stands.
pub fn find_first(pairs: &[Pair], key: &str) -> (r: Option<usize>)
    ensures
        match first_with_key(pair_views(pairs@), key@) {
            Some(p) => r matches Some(i) && i < pairs@.len() && pairs@[i as int]@ == p,
            None => r is None,
        },
{
    let k = String::from_str(key);
    let mut i: usize = 0;
    assert(pair_views(pairs@).skip(0) =~= pair_views(pairs@));
    while i < pairs.len()
        invariant
            i <= pairs@.len(),
            k@ == key@,
            first_with_key(pair_views(pairs@), key@) == first_with_key(
                pair_views(pairs@).skip(i as int),
                key@,
            ),
        decreases pairs@.len() - i,
    {
        assert(pair_views(pairs@).skip(i as int)[0] == pairs@[i as int]@);
        if pairs[i].key == k {
            return Some(i);
        }
        assert(pair_views(pairs@).skip(i as int).drop_first() =~= pair_views(pairs@).skip(
            i + 1,
        ));
        i = i + 1;
    }
    None
}

/// Where the last pair with the given key stands.
pub fn find_last(pairs: &[Pair], key: &str) -> (r: Option<usize>)
    ensures
        match last_with_key(pair_views(pairs@), key@) {
            Some(p) => r matches Some(i) && i < pairs@.len() && pairs@[i as int]@ == p,
            None => r is None,
        },
{
    let k = String::from_str(key);
    let mut n: usize = pairs.len();
    assert(pair_views(pairs@).take(n as int) =~= pair_views(pairs@));
    while n > 0
        invariant
            n <= pairs@.len(),
            k@ == key@,
            last_with_key(pair_views(pairs@), key@) == last_with_key(
                pair_views(pairs@).take(n as int),
                key@,
            ),
        decreases n,
    {
        assert(pair_views(pairs@).take(n as int).last() == pairs@[n - 1]@);
        if pairs[n - 1].key == k {
            return Some(n - 1);
        }
        assert(pair_views(pairs@).take(n as int).drop_last() =~= pair_views(pairs@).take(
            n - 1,
        ));
        n = n - 1;
    }
    None
}

/// A copy of the value of the first pair with the given key.
pub fn first_value_of(pairs: &[Pair], key: &str) -> (r: Option<String>)
    ensures
        match first_value(pair_views(pairs@), key@) {
            Some(v) => r matches Some(s) && s@ == v,
            None => r is None,
        },
{
    match find_first(pairs, key) {
        Some(i) => Some(pairs[i].value.clone()),
        None => None,
    }
}

/// A copy of the value of the last pair with the given key.
pub fn last_value_of(pairs: &[Pair], key: &str) -> (r: Option<String>)
    ensures
        match last_value(pair_views(pairs@), key@) {
            Some(v) => r matches Some(s) && s@ == v,
            None => r is None,
        },
{
    match find_last(pairs, key) {
        Some(i) => Some(pairs[i].value.clone()),
        None => None,
    }
}

} // verus!
