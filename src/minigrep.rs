//! Finding the lines of a text that hold a query.

use vstd::prelude::*;

verus! {

/// What to search for, and where.
pub struct Config {
    pub query: String,
    pub filename: String,
    pub case_sensitive: bool,
}

impl Config {
    /// A search from the arguments `program query filename`; the search
    /// ignores case when the caller found `CASE_INSENSITIVE` set.
    pub fn new(args: &[String], case_insensitive_set: bool) -> (r: Result<Config, &'static str>)
        ensures
            args@.len() < 3 <==> r is Err,
            r is Err ==> r->Err_0@ == "not enough arguments"@,
            r is Ok ==> r->Ok_0.query@ == args@[1]@ && r->Ok_0.filename@ == args@[2]@
                && r->Ok_0.case_sensitive == !case_insensitive_set,
    {
        if args.len() < 3 {
            return Err("not enough arguments");
        }
        let query = args[1].clone();
        let filename = args[2].clone();
        Ok(Config { query, filename, case_sensitive: !case_insensitive_set })
    }
}

/// `needle` occurs in `hay`.
pub open spec fn is_substring(needle: Seq<char>, hay: Seq<char>) -> bool {
    exists|i: int|
        0 <= i && i + needle.len() <= hay.len() && #[trigger] hay.subrange(i, i + needle.len())
            == needle
}

/// The pieces of `s` between line feeds; there is always at least one.
pub open spec fn split_lf(s: Seq<char>) -> Seq<Seq<char>>
    decreases s.len(),
{
    if s.len() == 0 {
        seq![Seq::empty()]
    } else {
        let p = split_lf(s.drop_last());
        if s.last() == '\n' {
            p.push(Seq::empty())
        } else {
            p.update(p.len() - 1, p.last().push(s.last()))
        }
    }
}

pub open spec fn without_cr(l: Seq<char>) -> Seq<char> {
    if l.len() > 0 && l.last() == '\r' {
        l.drop_last()
    } else {
        l
    }
}

/// The lines of `s`: split at `\n` or `\r\n`, the ending left out; the last
/// line needs no ending, and an empty text has no lines.
pub open spec fn text_lines(s: Seq<char>) -> Seq<Seq<char>> {
    let p = split_lf(s);
    let ended = p.drop_last().map_values(|l: Seq<char>| without_cr(l));
    if p.last().len() == 0 {
        ended
    } else {
        ended.push(p.last())
    }
}

/// The lines, in order, for which `keep` holds.
pub open spec fn kept(ls: Seq<Seq<char>>, keep: spec_fn(Seq<char>) -> bool) -> Seq<Seq<char>>
    decreases ls.len(),
{
    if ls.len() == 0 {
        Seq::empty()
    } else if keep(ls.last()) {
        kept(ls.drop_last(), keep).push(ls.last())
    } else {
        kept(ls.drop_last(), keep)
    }
}

/// What `s` becomes in lower case.
pub uninterp spec fn lower_of(s: Seq<char>) -> Seq<char>;

pub open spec fn string_views(v: Seq<String>) -> Seq<Seq<char>> {
    v.map_values(|s: String| s@)
}

/// Relies on `str::lines`: the lines as `text_lines` describes them.
#[verifier::external_body]
fn lines_of(s: &str) -> (r: Vec<String>)
    ensures
        string_views(r@) == text_lines(s@),
{
    s.lines().map(String::from).collect()
}

/// Relies on `str::contains` with a `&str` pattern: `needle` occurs in `hay`.
#[verifier::external_body]
fn contains(hay: &str, needle: &str) -> (r: bool)
    ensures
        r == is_substring(needle@, hay@),
{
    hay.contains(needle)
}

/// Relies on `str::to_lowercase`: the result depends on the characters alone.
#[verifier::external_body]
fn lowercase(s: &str) -> (r: String)
    ensures
        r@ == lower_of(s@),
{
    s.to_lowercase()
}

/// The lines of `contents` that hold `query`, in order.
pub fn search(query: &str, contents: &str) -> (r: Vec<String>)
    ensures
        string_views(r@) == kept(text_lines(contents@), |l: Seq<char>| is_substring(query@, l)),
{
    let lines = lines_of(contents);
    let ghost keep = |l: Seq<char>| is_substring(query@, l);
    let mut results: Vec<String> = Vec::new();
    let mut i: usize = 0;
    assert(string_views(lines@).subrange(0, 0) =~= Seq::<Seq<char>>::empty());
    while i < lines.len()
        invariant
            i <= lines.len(),
            keep == (|l: Seq<char>| is_substring(query@, l)),
            string_views(results@) == kept(string_views(lines@).subrange(0, i as int), keep),
        decreases lines.len() - i,
    {
        let ghost ls = string_views(lines@);
        assert(ls.subrange(0, i + 1).drop_last() =~= ls.subrange(0, i as int));
        let line = lines[i].clone();
        assert(line@ == ls[i as int]);
        assert(ls.subrange(0, i + 1).last() == ls[i as int]);
        if contains(line.as_str(), query) {
            let ghost before = results@;
            results.push(line);
            assert(keep(ls[i as int]));
            assert(kept(ls.subrange(0, i + 1), keep) == kept(ls.subrange(0, i as int), keep).push(
                ls[i as int],
            ));
            assert(string_views(results@) =~= string_views(before).push(ls[i as int]));
        }
        i = i + 1;
    }
    assert(string_views(lines@).subrange(0, i as int) =~= string_views(lines@));
    results
}

/// Whether a line matches, both already in lower case: the folded query
/// occurs in the folded line.
pub fn matches_folded(folded_query: &str, folded_line: &str) -> (r: bool)
    ensures
        r == is_substring(folded_query@, folded_line@),
{
    contains(folded_line, folded_query)
}

/// The lines of `contents` that hold `query`, upper and lower case alike.
pub fn search_case_insensitive(query: &str, contents: &str) -> (r: Vec<String>)
    ensures
        string_views(r@) == kept(
            text_lines(contents@),
            |l: Seq<char>| is_substring(lower_of(query@), lower_of(l)),
        ),
{
    let query = lowercase(query);
    let lines = lines_of(contents);
    let ghost keep = |l: Seq<char>| is_substring(query@, lower_of(l));
    let mut results: Vec<String> = Vec::new();
    let mut i: usize = 0;
    assert(string_views(lines@).subrange(0, 0) =~= Seq::<Seq<char>>::empty());
    while i < lines.len()
        invariant
            i <= lines.len(),
            keep == (|l: Seq<char>| is_substring(query@, lower_of(l))),
            string_views(results@) == kept(string_views(lines@).subrange(0, i as int), keep),
        decreases lines.len() - i,
    {
        let ghost ls = string_views(lines@);
        assert(ls.subrange(0, i + 1).drop_last() =~= ls.subrange(0, i as int));
        let line = lines[i].clone();
        assert(line@ == ls[i as int]);
        assert(ls.subrange(0, i + 1).last() == ls[i as int]);
        let folded = lowercase(line.as_str());
        if matches_folded(query.as_str(), folded.as_str()) {
            let ghost before = results@;
            results.push(line);
            assert(keep(ls[i as int]));
            assert(kept(ls.subrange(0, i + 1), keep) == kept(ls.subrange(0, i as int), keep).push(
                ls[i as int],
            ));
            assert(string_views(results@) =~= string_views(before).push(ls[i as int]));
        }
        i = i + 1;
    }
    assert(string_views(lines@).subrange(0, i as int) =~= string_views(lines@));
    results
}

} // verus!
