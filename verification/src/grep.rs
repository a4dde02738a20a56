//! Line search: the lines of a text that contain a query.

use vstd::prelude::*;

verus! {

/// The position of the first line feed in `s`, or the length of `s` if it
/// has none.
pub open spec fn first_line_feed(s: Seq<char>) -> int
    decreases s.len(),
{
    if s.len() == 0 || s[0] == '\n' {
        0
    } else {
        1 + first_line_feed(s.drop_first())
    }
}

/// `line` without the carriage return at its end, if it has one.
pub open spec fn without_carriage_return(line: Seq<char>) -> Seq<char> {
    if line.len() > 0 && line.last() == '\r' {
        line.drop_last()
    } else {
        line
    }
}

/// The lines of a text. A line ends with a line feed, or with a carriage
/// return followed by a line feed; neither belongs to the line. The last
/// line need not be ended, and a text that ends with a line ending has no
/// empty line after it.
pub open spec fn lines_of(s: Seq<char>) -> Seq<Seq<char>>
    decreases s.len(),
{
    let end = first_line_feed(s);
    if s.len() == 0 {
        Seq::empty()
    } else if 0 <= end < s.len() {
        seq![without_carriage_return(s.subrange(0, end))] + lines_of(
            s.subrange(end + 1, s.len() as int),
        )
    } else {
        seq![s]
    }
}

/// Whether `query` occurs in `line`, as a run of consecutive characters.
pub open spec fn occurs_in(query: Seq<char>, line: Seq<char>) -> bool {
    exists|i: int|
        0 <= i && i + query.len() <= line.len() && #[trigger] line.subrange(
            i,
            i + query.len(),
        ) == query
}

/// The text in lower case, by the rules of Unicode.
pub uninterp spec fn lowercase_of(s: Seq<char>) -> Seq<char>;

/// The texts that a vector of string slices stands for.
pub open spec fn texts(v: Seq<&str>) -> Seq<Seq<char>> {
    Seq::new(v.len(), |i: int| v[i]@)
}

/// Those of `lines`, in their order, that contain `query`.
pub open spec fn matching(query: Seq<char>, lines: Seq<Seq<char>>) -> Seq<Seq<char>>
    decreases lines.len(),
{
    if lines.len() == 0 {
        Seq::empty()
    } else if occurs_in(query, lines.last()) {
        matching(query, lines.drop_last()).push(lines.last())
    } else {
        matching(query, lines.drop_last())
    }
}

/// The texts that a vector of strings stands for.
pub open spec fn string_texts(v: Seq<String>) -> Seq<Seq<char>> {
    Seq::new(v.len(), |i: int| v[i]@)
}

/// Each of `lines` in lower case.
pub open spec fn lowered(lines: Seq<Seq<char>>) -> Seq<Seq<char>> {
    Seq::new(lines.len(), |i: int| lowercase_of(lines[i]))
}

/// Those of the first `n` of `lines`, in their order, whose key contains
/// `query`. The key of a line is the text at the same place in `keys`.
pub open spec fn selected(
    query: Seq<char>,
    lines: Seq<Seq<char>>,
    keys: Seq<Seq<char>>,
    n: nat,
) -> Seq<Seq<char>>
    decreases n,
{
    if n == 0 {
        Seq::empty()
    } else if occurs_in(query, keys[n - 1]) {
        selected(query, lines, keys, (n - 1) as nat).push(lines[n - 1])
    } else {
        selected(query, lines, keys, (n - 1) as nat)
    }
}

/// The number of lines that have a key: the length of the shorter of the
/// two.
pub open spec fn keyed(lines: nat, keys: nat) -> nat {
    if lines <= keys {
        lines
    } else {
        keys
    }
}

/// `str::lines`, gathered in a vector: the lines of `s`, as [`lines_of`]
/// cuts them.
#[verifier::external_body]
fn split_lines<'a>(s: &'a str) -> (lines: Vec<&'a str>)
    ensures
        texts(lines@) == lines_of(s@),
{
    s.lines().collect()
}

/// `str::contains` with a string pattern: whether `query` occurs in `line`.
#[verifier::external_body]
fn contains(line: &str, query: &str) -> (found: bool)
    ensures
        found == occurs_in(query@, line@),
{
    line.contains(query)
}

/// `str::to_lowercase`: the text in lower case.
#[verifier::external_body]
fn to_lowercase(s: &str) -> (lowered: String)
    ensures
        lowered@ == lowercase_of(s@),
{
    s.to_lowercase()
}

/// What to search for, where, and how.
pub struct Config {
    pub query: String,
    pub file_path: String,
    pub ignore_case: bool,
}

impl Config {
    /// Reads a configuration from the arguments of a command line: the
    /// program's name, the query, the path of the file. `ignore_case` says
    /// whether the search is to ignore case.
    pub fn build(args: &[String], ignore_case: bool) -> (r: Result<Config, &'static str>)
        ensures
            args@.len() < 3 <==> r is Err,
            r matches Err(message) ==> message@ == "Not enough argmuments"@,
            r matches Ok(config) ==> config.query@ == args@[1]@ && config.file_path@ == args@[2]@
                && config.ignore_case == ignore_case,
    {
        if args.len() < 3 {
            return Err("Not enough argmuments");
        }
        let query = args[1].clone();
        let file_path = args[2].clone();
        Ok(Config { query, file_path, ignore_case })
    }
}

/// The lines of `contents` that contain `query`, in their order.
pub fn search<'a>(query: &str, contents: &'a str) -> (result: Vec<&'a str>)
    ensures
        texts(result@) == matching(query@, lines_of(contents@)),
{
    let lines = split_lines(contents);
    let mut result: Vec<&'a str> = Vec::new();
    let mut i: usize = 0;
    while i < lines.len()
        invariant
            i <= lines@.len(),
            texts(lines@) == lines_of(contents@),
            texts(result@) == matching(query@, texts(lines@).take(i as int)),
        decreases lines@.len() - i,
    {
        let line = lines[i];
        let ghost seen = texts(lines@).take(i as int + 1);
        assert(seen.drop_last() =~= texts(lines@).take(i as int));
        assert(seen.last() == line@);
        if contains(line, query) {
            let ghost before = result@;
            result.push(line);
            assert(texts(result@) =~= texts(before).push(line@));
        }
        i += 1;
    }
    assert(texts(lines@).take(lines@.len() as int) =~= texts(lines@));
    result
}

/// Those of `lines`, in their order, whose key contains `query`. The key of
/// a line is the text at the same place in `keys`; a line without a key is
/// left out.
pub fn select_lines<'a>(
    query: &str,
    lines: &Vec<&'a str>,
    keys: &Vec<String>,
) -> (result: Vec<&'a str>)
    ensures
        texts(result@) == selected(
            query@,
            texts(lines@),
            string_texts(keys@),
            keyed(lines@.len(), keys@.len()),
        ),
{
    let n = if lines.len() <= keys.len() {
        lines.len()
    } else {
        keys.len()
    };
    let mut result: Vec<&'a str> = Vec::new();
    let mut i: usize = 0;
    while i < n
        invariant
            i <= n,
            n == keyed(lines@.len(), keys@.len()),
            texts(result@) == selected(query@, texts(lines@), string_texts(keys@), i as nat),
        decreases n - i,
    {
        let line = lines[i];
        if contains(keys[i].as_str(), query) {
            let ghost before = result@;
            result.push(line);
            assert(texts(result@) =~= texts(before).push(line@));
        }
        i += 1;
    }
    result
}

/// The lines of `contents` that contain `query` when case is ignored, in
/// their order: the query in lower case is looked for in each line in lower
/// case.
pub fn search_case_insensitive<'a>(query: &str, contents: &'a str) -> (result: Vec<&'a str>)
    ensures
        texts(result@) == selected(
            lowercase_of(query@),
            lines_of(contents@),
            lowered(lines_of(contents@)),
            lines_of(contents@).len(),
        ),
{
    let query = to_lowercase(query);
    let lines = split_lines(contents);
    let mut keys: Vec<String> = Vec::new();
    let mut i: usize = 0;
    while i < lines.len()
        invariant
            i <= lines@.len(),
            keys@.len() == i,
            forall|k: int| 0 <= k < i ==> (#[trigger] keys@[k])@ == lowercase_of(lines@[k]@),
        decreases lines@.len() - i,
    {
        keys.push(to_lowercase(lines[i]));
        i += 1;
    }
    assert(string_texts(keys@) =~= lowered(texts(lines@)));
    select_lines(query.as_str(), &lines, &keys)
}

} // verus!
