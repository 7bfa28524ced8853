//! Line search: the lines of a text that hold a query.

use vstd::prelude::*;
use crate::text::{
    contains, has_match, line_bounds, lines, lowercase, pieces, ranges_within, same_chars,
    to_chars, unicode_lowercase,
};

verus! {

/// What a search is run with.
pub struct Config {
    pub query: String,
    pub filename: String,
    pub case_sensitive: bool,
}

/// Whether the argument `arg` asks for a search that tells upper case from
/// lower case: in any casing, it is the word `sensitive`.
pub open spec fn asks_sensitive(arg: Seq<char>) -> bool {
    unicode_lowercase(arg) == "sensitive"@
}

/// Whether the argument `arg` asks for a search that tells upper case from
/// lower case.
pub fn parse_case_sensitivity_arg(arg: &str) -> (r: bool)
    ensures
        r == asks_sensitive(arg@),
{
    let lower = lowercase(arg);
    if same_chars(&to_chars(lower.as_str()), &to_chars("sensitive")) {
        return true;
    }
    false
}

impl Config {
    /// The configuration that the command line `args` asks for. `args[0]` is
    /// the name of the program, then come the query, the file name and,
    /// optionally, the case sensitivity. Where the last is not given, the
    /// search is case sensitive unless `case_insensitive_set` says that the
    /// environment asks otherwise.
    pub fn new(args: &Vec<String>, case_insensitive_set: bool) -> (r: Result<
        Config,
        &'static str,
    >)
        ensures
            match r {
                Ok(c) => args.len() >= 3 && c.query@ == args[1]@ && c.filename@ == args[2]@
                    && c.case_sensitive == if args.len() >= 4 {
                    asks_sensitive(args[3]@)
                } else {
                    !case_insensitive_set
                },
                Err(m) => if args.len() < 2 {
                    m@ == "Didn't get a query"@
                } else {
                    args.len() == 2 && m@ == "Didn't get a file name"@
                },
            },
    {
        if args.len() < 2 {
            return Err("Didn't get a query");
        }
        let query = args[1].clone();
        if args.len() < 3 {
            return Err("Didn't get a file name");
        }
        let filename = args[2].clone();
        let case_sensitive = if args.len() >= 4 {
            parse_case_sensitivity_arg(args[3].as_str())
        } else {
            !case_insensitive_set
        };
        Ok(Config { query, filename, case_sensitive })
    }
}

/// The text of each string slice of `v`.
pub open spec fn texts_of(v: Seq<&str>) -> Seq<Seq<char>> {
    v.map_values(|s: &str| s@)
}

/// The lines of `contents` that hold `query`, in order.
pub open spec fn matching_lines(query: Seq<char>, contents: Seq<char>) -> Seq<Seq<char>> {
    lines(contents).filter(|l: Seq<char>| contains(l, query))
}

/// The lines of `contents` that hold `query` when upper and lower case are
/// not told apart: the lines whose lowercase form holds the lowercase form of
/// `query`.
pub open spec fn matching_lines_any_case(query: Seq<char>, contents: Seq<char>) -> Seq<
    Seq<char>,
> {
    lines(contents).filter(
        |l: Seq<char>| contains(unicode_lowercase(l), unicode_lowercase(query)),
    )
}

/// The lines of `contents` that hold `query`; with `fold`, upper and lower
/// case are not told apart.
fn search_lines<'a>(query: &str, contents: &'a str, fold: bool) -> (r: Vec<&'a str>)
    ensures
        texts_of(r@) == if fold {
            matching_lines_any_case(query@, contents@)
        } else {
            matching_lines(query@, contents@)
        },
{
    let text = to_chars(contents);
    let bounds = line_bounds(&text);
    let needle = if fold {
        to_chars(lowercase(query).as_str())
    } else {
        to_chars(query)
    };
    let ghost all = lines(contents@);
    let ghost pred = if fold {
        |l: Seq<char>| contains(unicode_lowercase(l), unicode_lowercase(query@))
    } else {
        |l: Seq<char>| contains(l, query@)
    };
    let mut out: Vec<&'a str> = Vec::new();
    let mut k: usize = 0;
    assert(all.take(0).filter(pred) == Seq::<Seq<char>>::empty()) by {
        assert(all.take(0) == Seq::<Seq<char>>::empty());
        reveal(Seq::filter);
    }
    while k < bounds.len()
        invariant
            k <= bounds.len(),
            text@ == contents@,
            ranges_within(bounds@, text@.len()),
            pieces(text@, bounds@) == all,
            all == lines(contents@),
            needle@ == if fold {
                unicode_lowercase(query@)
            } else {
                query@
            },
            pred == if fold {
                |l: Seq<char>| contains(unicode_lowercase(l), unicode_lowercase(query@))
            } else {
                |l: Seq<char>| contains(l, query@)
            },
            texts_of(out@) == all.take(k as int).filter(pred),
        decreases bounds.len() - k,
    {
        let line: &'a str = contents.substring_char(bounds[k].0, bounds[k].1);
        proof {
            assert(line@ == all[k as int]);
            assert(all.take(k + 1) == all.take(k as int).push(line@));
            all.take(k as int).lemma_filter_push(line@, pred);
        }
        let hit = if fold {
            has_match(&to_chars(lowercase(line).as_str()), &needle)
        } else {
            has_match(&to_chars(line), &needle)
        };
        if hit {
            let ghost before = out@;
            out.push(line);
            assert(texts_of(out@) == texts_of(before).push(line@));
        }
        k += 1;
    }
    assert(all.take(bounds.len() as int) == all);
    out
}

/// The lines of `contents` that hold `query`, in order.
pub fn search<'a>(query: &str, contents: &'a str) -> (r: Vec<&'a str>)
    ensures
        texts_of(r@) == matching_lines(query@, contents@),
{
    search_lines(query, contents, false)
}

/// The lines of `contents` that hold `query` when upper and lower case are
/// not told apart, in order.
pub fn search_case_insensitive<'a>(query: &str, contents: &'a str) -> (r: Vec<&'a str>)
    ensures
        texts_of(r@) == matching_lines_any_case(query@, contents@),
{
    search_lines(query, contents, true)
}

/// The lines of `contents` that a run with `config` prints: those that hold
/// the query, with or without regard to case as `config` says.
pub fn run<'a>(config: &Config, contents: &'a str) -> (r: Vec<&'a str>)
    ensures
        texts_of(r@) == if config.case_sensitive {
            matching_lines(config.query@, contents@)
        } else {
            matching_lines_any_case(config.query@, contents@)
        },
{
    if config.case_sensitive {
        search(config.query.as_str(), contents)
    } else {
        search_case_insensitive(config.query.as_str(), contents)
    }
}

} // verus!
