//! Key/value files: one pair on each line, the key and the value parted by a
//! delimiter. Where a key occurs on several lines, its first line counts.

use vstd::prelude::*;
use crate::error::Error;
use crate::text::{
    copy_range, find, find_first, lines, same_chars, split_lines, to_chars, to_string, trim,
    trimmed, views,
};

verus! {

/// The value of the first pair of `pairs` whose key is `key`.
pub open spec fn first_value(pairs: Seq<(Seq<char>, Seq<char>)>, key: Seq<char>) -> Option<
    Seq<char>,
>
    decreases pairs.len(),
{
    if pairs.len() == 0 {
        None
    } else if pairs[0].0 == key {
        Some(pairs[0].1)
    } else {
        first_value(pairs.drop_first(), key)
    }
}

/// The mapping that gives each key of `pairs` the value of its first pair.
pub open spec fn first_wins(pairs: Seq<(Seq<char>, Seq<char>)>) -> Map<Seq<char>, Seq<char>> {
    Map::new(
        |k: Seq<char>| first_value(pairs, k) is Some,
        |k: Seq<char>| first_value(pairs, k).unwrap(),
    )
}

/// Whether no key occurs in two pairs of `pairs`.
pub open spec fn distinct_keys(pairs: Seq<(Seq<char>, Seq<char>)>) -> bool {
    forall|i: int, j: int| 0 <= i < j < pairs.len() ==> (#[trigger] pairs[i]).0 != (
    #[trigger] pairs[j]).0
}

/// A key that `first_value` does not find is the key of no pair.
pub proof fn lemma_first_value_none(pairs: Seq<(Seq<char>, Seq<char>)>, key: Seq<char>)
    requires
        first_value(pairs, key) is None,
    ensures
        forall|i: int| 0 <= i < pairs.len() ==> (#[trigger] pairs[i]).0 != key,
    decreases pairs.len(),
{
    if pairs.len() > 0 {
        let rest = pairs.drop_first();
        lemma_first_value_none(rest, key);
        assert forall|i: int| 0 <= i < pairs.len() implies (#[trigger] pairs[i]).0 != key by {
            if i > 0 {
                assert(pairs[i] == rest[i - 1]);
            }
        }
    }
}

/// A pair added at the end counts only for a key that had no pair before.
pub proof fn lemma_first_value_push(
    pairs: Seq<(Seq<char>, Seq<char>)>,
    pair: (Seq<char>, Seq<char>),
    key: Seq<char>,
)
    ensures
        first_value(pairs.push(pair), key) == if first_value(pairs, key) is Some {
            first_value(pairs, key)
        } else if pair.0 == key {
            Some(pair.1)
        } else {
            None
        },
    decreases pairs.len(),
{
    let longer = pairs.push(pair);
    if pairs.len() == 0 {
        assert(longer.drop_first() == Seq::<(Seq<char>, Seq<char>)>::empty());
        assert(first_value(longer.drop_first(), key) is None);
    } else {
        assert(longer[0] == pairs[0]);
        assert(longer.drop_first() == pairs.drop_first().push(pair));
        lemma_first_value_push(pairs.drop_first(), pair, key);
    }
}

/// A mapping from keys to values, both text, in which no key occurs twice
/// and the keys keep the order in which they came.
pub struct KeyValues {
    entries: Vec<(Vec<char>, Vec<char>)>,
}

impl KeyValues {
    /// The pairs held, in the order in which their keys first came.
    pub closed spec fn pairs(&self) -> Seq<(Seq<char>, Seq<char>)> {
        self.entries@.map_values(|e: (Vec<char>, Vec<char>)| (e.0@, e.1@))
    }

    /// Whether no key occurs twice.
    pub open spec fn wf(&self) -> bool {
        distinct_keys(self.pairs())
    }

    /// The mapping held.
    pub open spec fn model(&self) -> Map<Seq<char>, Seq<char>> {
        first_wins(self.pairs())
    }

    /// A mapping without keys.
    pub fn new() -> (r: KeyValues)
        ensures
            r.wf(),
            r.pairs() == Seq::<(Seq<char>, Seq<char>)>::empty(),
            r.model() == Map::<Seq<char>, Seq<char>>::empty(),
    {
        let r = KeyValues { entries: Vec::new() };
        assert(r.pairs() == Seq::<(Seq<char>, Seq<char>)>::empty());
        assert(r.model() == Map::<Seq<char>, Seq<char>>::empty());
        r
    }

    /// The value of `key`, if the mapping holds the key.
    pub fn lookup(&self, key: &Vec<char>) -> (r: Option<&Vec<char>>)
        ensures
            match r {
                Some(v) => self.model().contains_key(key@) && self.model()[key@] == v@,
                None => !self.model().contains_key(key@),
            },
    {
        let mut i: usize = 0;
        assert(self.pairs().skip(0) == self.pairs());
        while i < self.entries.len()
            invariant
                i <= self.entries.len(),
                first_value(self.pairs(), key@) == first_value(self.pairs().skip(i as int), key@),
            decreases self.entries.len() - i,
        {
            assert(self.pairs().skip(i as int)[0] == self.pairs()[i as int]);
            assert(self.pairs().skip(i as int).drop_first() == self.pairs().skip(i + 1));
            if same_chars(&self.entries[i].0, key) {
                return Some(&self.entries[i].1);
            }
            i += 1;
        }
        None
    }

    /// The value of `key`, if the mapping holds the key.
    pub fn get(&self, key: &str) -> (r: Option<String>)
        ensures
            match r {
                Some(v) => self.model().contains_key(key@) && self.model()[key@] == v@,
                None => !self.model().contains_key(key@),
            },
    {
        match self.lookup(&to_chars(key)) {
            Some(v) => Some(to_string(v)),
            None => None,
        }
    }

    /// Gives `key` the value `value` unless the mapping holds the key.
    pub fn insert_if_absent(&mut self, key: Vec<char>, value: Vec<char>)
        requires
            old(self).wf(),
        ensures
            final(self).wf(),
            final(self).pairs() == if old(self).model().contains_key(key@) {
                old(self).pairs()
            } else {
                old(self).pairs().push((key@, value@))
            },
            final(self).model() == if old(self).model().contains_key(key@) {
                old(self).model()
            } else {
                old(self).model().insert(key@, value@)
            },
    {
        if self.lookup(&key).is_none() {
            let ghost before = self.pairs();
            proof {
                lemma_first_value_none(before, key@);
            }
            self.entries.push((key, value));
            proof {
                assert(self.pairs() == before.push((key@, value@)));
                assert forall|k: Seq<char>|
                    first_value(self.pairs(), k) == #[trigger] first_value(
                        before.push((key@, value@)),
                        k,
                    ) by {}
                assert(self.model() =~= first_wins(before).insert(key@, value@)) by {
                    assert forall|k: Seq<char>|
                        #[trigger] first_value(self.pairs(), k) == if k == key@ {
                            Some(value@)
                        } else {
                            first_value(before, k)
                        } by {
                        lemma_first_value_push(before, (key@, value@), k);
                    }
                }
            }
        }
    }
}

/// Whether `line` holds the delimiter, and so a key and a value.
pub open spec fn has_delimiter(line: Seq<char>, delimiter: Seq<char>) -> bool {
    find(line, delimiter) is Some
}

/// The key of `line`: what stands before the first occurrence of the
/// delimiter.
pub open spec fn key_of(line: Seq<char>, delimiter: Seq<char>) -> Seq<char> {
    line.take(find(line, delimiter).unwrap())
}

/// The value of `line`: what stands behind the first occurrence of the
/// delimiter, without whitespace around it. Later occurrences of the
/// delimiter are part of the value.
pub open spec fn value_of(line: Seq<char>, delimiter: Seq<char>) -> Seq<char> {
    trim(line.skip(find(line, delimiter).unwrap() + delimiter.len()))
}

/// The pair of each line.
pub open spec fn line_pairs(lines: Seq<Seq<char>>, delimiter: Seq<char>) -> Seq<
    (Seq<char>, Seq<char>),
> {
    lines.map_values(|l: Seq<char>| (key_of(l, delimiter), value_of(l, delimiter)))
}

/// Whether every line holds the delimiter.
pub open spec fn all_delimited(lines: Seq<Seq<char>>, delimiter: Seq<char>) -> bool {
    forall|i: int| 0 <= i < lines.len() ==> has_delimiter(#[trigger] lines[i], delimiter)
}

/// The mapping that the lines of `contents` write, when each of them holds
/// the delimiter.
pub open spec fn key_values(contents: Seq<char>, delimiter: Seq<char>) -> Option<
    Map<Seq<char>, Seq<char>>,
> {
    if all_delimited(lines(contents), delimiter) {
        Some(first_wins(line_pairs(lines(contents), delimiter)))
    } else {
        None
    }
}

/// Reads `contents` as a key/value file. Each line is parted at the first
/// occurrence of `delimiter`; where a key occurs on several lines its first
/// line counts. A line without the delimiter makes the file malformed.
pub fn read_as_hashmap(contents: &str, delimiter: &str) -> (r: Result<KeyValues, Error>)
    ensures
        match r {
            Ok(kv) => kv.wf() && key_values(contents@, delimiter@) == Some(kv.model()),
            Err(e) => e == Error::Parse && key_values(contents@, delimiter@) is None,
        },
{
    let text = to_chars(contents);
    let delim = to_chars(delimiter);
    let all = split_lines(&text);
    let ghost ls = lines(contents@);
    let ghost ps = line_pairs(ls, delimiter@);
    let mut kv = KeyValues::new();
    let mut i: usize = 0;
    while i < all.len()
        invariant
            i <= all.len(),
            views(all@) == ls,
            ls == lines(contents@),
            ps == line_pairs(ls, delimiter@),
            delim@ == delimiter@,
            forall|j: int| 0 <= j < i ==> has_delimiter(#[trigger] ls[j], delimiter@),
            kv.wf(),
            kv.model() == first_wins(ps.take(i as int)),
        decreases all.len() - i,
    {
        let line = &all[i];
        assert(line@ == ls[i as int]);
        let at = match find_first(line, &delim) {
            Some(at) => at,
            None => {
                return Err(Error::Parse);
            },
        };
        proof {
            crate::text::lemma_find_from(line@, delim@, 0);
            assert(crate::text::matches_at(line@, delim@, at as int));
        }
        let key = copy_range(line, 0, at);
        let end: usize = line.len();
        let rest = copy_range(line, at + delim.len(), end);
        let value = trimmed(&rest);
        proof {
            assert(key@ == key_of(ls[i as int], delimiter@));
            assert(value@ == value_of(ls[i as int], delimiter@));
            assert(ps.take(i + 1) == ps.take(i as int).push(ps[i as int]));
            assert forall|k: Seq<char>|
                #[trigger] first_value(ps.take(i + 1), k) == if first_value(
                    ps.take(i as int),
                    k,
                ) is Some {
                    first_value(ps.take(i as int), k)
                } else if key@ == k {
                    Some(value@)
                } else {
                    None
                } by {
                lemma_first_value_push(ps.take(i as int), ps[i as int], k);
            }
            assert(first_wins(ps.take(i + 1)) =~= if first_wins(ps.take(i as int)).contains_key(
                key@,
            ) {
                first_wins(ps.take(i as int))
            } else {
                first_wins(ps.take(i as int)).insert(key@, value@)
            });
        }
        kv.insert_if_absent(key, value);
        i += 1;
    }
    assert(ps.take(all.len() as int) == ps);
    Ok(kv)
}

} // verus!
