use crate::color::{escape_of, Color};
use crate::text::{chars_of, find_from, first_from, lemma_first_from};
use vstd::prelude::*;

verus! {

/// The regular expression `(.+?)<sep>(.*)`: some text, the separator, the rest.
pub open spec fn split_pattern(sep: char) -> Seq<char> {
    "(.+?)"@ + seq![sep] + "(.*)"@
}

/// Where `(.+?)<sep>(.*)` matches a line without newlines: at the first `sep` after
/// the first character, giving the text before it and the text after it.
pub open spec fn sep_split(line: Seq<char>, sep: char) -> Option<(Seq<char>, Seq<char>)> {
    let k = first_from(line, sep, 1);
    if k < line.len() {
        Some((line.take(k), line.skip(k + 1)))
    } else {
        None
    }
}

/// Relies on regex::Regex::new and Regex::captures: on a line without `\n`, `.` matches
/// every character, so `(.+?)S(.*)` for a literal `S` matches from the start when `S`
/// stands after the first character; the lazy group 1 ends at the first such `S` and
/// group 2 runs to the end of the line.
#[verifier::external_body]
fn split_captures(pattern: &str, line: &str) -> (r: Option<(String, String)>)
    requires
        pattern@ == split_pattern('/') || pattern@ == split_pattern(':'),
        !line@.contains('\n'),
    ensures
        r is Some <==> sep_split(line@, pattern@[5]) is Some,
        r matches Some(p) ==> (p.0@, p.1@) == sep_split(line@, pattern@[5])->0,
{
    let re = regex::Regex::new(pattern).ok()?;
    let caps = re.captures(line)?;
    Some((caps.get(1)?.as_str().to_string(), caps.get(2)?.as_str().to_string()))
}

pub const STATUS_PATTERN: &'static str = "(.+?)/(.*)";

pub const HEADER_PATTERN: &'static str = "(.+?):(.*)";

/// The status line with the protocol in green and the version in cyan; unchanged when
/// it holds no `/` after its first character.
pub open spec fn status_colored(line: Seq<char>) -> Seq<char> {
    match sep_split(line, '/') {
        Some((a, b)) => escape_of(Color::Green) + a + escape_of(Color::Reset) + seq!['/']
            + escape_of(Color::Cyan) + b + escape_of(Color::Reset),
        None => line,
    }
}

/// A header line with its value in cyan; unchanged when it holds no `:` after its first
/// character.
pub open spec fn header_colored(line: Seq<char>) -> Seq<char> {
    match sep_split(line, ':') {
        Some((a, b)) => a + seq![':'] + escape_of(Color::Cyan) + b + escape_of(Color::Reset),
        None => line,
    }
}

/// Colors the status line of a response.
pub fn colorize_status(line: &str) -> (r: String)
    requires
        !line@.contains('\n'),
    ensures
        r@ == status_colored(line@),
{
    proof {
        reveal_strlit("(.+?)/(.*)");
        reveal_strlit("(.+?)");
        reveal_strlit("(.*)");
        assert(STATUS_PATTERN@ =~= split_pattern('/'));
    }
    match split_captures(STATUS_PATTERN, line) {
        Some((a, b)) => {
            let mut r = String::from_str(Color::Green.code());
            r.append(a.as_str());
            r.append(Color::Reset.code());
            proof { reveal_strlit("/"); }
            r.append("/");
            r.append(Color::Cyan.code());
            r.append(b.as_str());
            r.append(Color::Reset.code());
            assert(r@ =~= status_colored(line@));
            r
        },
        None => String::from_str(line),
    }
}

/// Colors one header line.
pub fn colorize_header(line: &str) -> (r: String)
    requires
        !line@.contains('\n'),
    ensures
        r@ == header_colored(line@),
{
    proof {
        reveal_strlit("(.+?):(.*)");
        reveal_strlit("(.+?)");
        reveal_strlit("(.*)");
        assert(HEADER_PATTERN@ =~= split_pattern(':'));
    }
    match split_captures(HEADER_PATTERN, line) {
        Some((a, b)) => {
            let mut r = a;
            proof { reveal_strlit(":"); }
            r.append(":");
            r.append(Color::Cyan.code());
            r.append(b.as_str());
            r.append(Color::Reset.code());
            assert(r@ =~= header_colored(line@));
            r
        },
        None => String::from_str(line),
    }
}

/// Whether the header/body separator `\r\n\r\n` starts at `i`.
pub open spec fn separator_at(s: Seq<char>, i: int) -> bool {
    &&& 0 <= i
    &&& i + 4 <= s.len()
    &&& s[i] == '\r'
    &&& s[i + 1] == '\n'
    &&& s[i + 2] == '\r'
    &&& s[i + 3] == '\n'
}

/// The header block of a response: the text before the first `\r\n\r\n`, if there is one.
pub open spec fn header_block(s: Seq<char>) -> Option<Seq<char>> {
    if exists|i: int| separator_at(s, i) {
        let k = choose|i: int| separator_at(s, i) && forall|j: int| 0 <= j < i ==> !separator_at(s, j);
        Some(s.take(k))
    } else {
        None
    }
}

/// The first separator is the one with no separator before it.
proof fn lemma_first_separator(s: Seq<char>, i: int)
    requires
        separator_at(s, i),
        forall|j: int| 0 <= j < i ==> !separator_at(s, j),
    ensures
        header_block(s) == Some(s.take(i)),
{
    let k = choose|k: int| separator_at(s, k) && forall|j: int| 0 <= j < k ==> !separator_at(s, j);
    assert(separator_at(s, k));
    if k < i {
        assert(!separator_at(s, k));
    }
    if k > i {
        assert(!separator_at(s, i));
    }
}

/// The header block of a captured response, or `None` when the response has no
/// header/body separator.
pub fn response_headers(text: &str) -> (r: Option<String>)
    ensures
        r is Some <==> header_block(text@) is Some,
        r matches Some(h) ==> h@ == header_block(text@)->0,
{
    let v = chars_of(text);
    let n = v.len();
    let mut i: usize = 0;
    while n >= 4 && i <= n - 4
        invariant
            v@ == text@,
            n == v.len(),
            forall|j: int| 0 <= j < i ==> !separator_at(v@, j),
        decreases n - i,
    {
        if v[i] == '\r' && v[i + 1] == '\n' && v[i + 2] == '\r' && v[i + 3] == '\n' {
            proof { lemma_first_separator(v@, i as int); }
            return Some(String::from_str(text.substring_char(0, i)));
        }
        i = i + 1;
    }
    assert(forall|j: int| !separator_at(v@, j));
    None
}

/// The lines of `s` from `start` on, split at `\n`; a `\r` before a `\n` is dropped, and
/// a final line ending is optional.
pub open spec fn lines_from(s: Seq<char>, start: int) -> Seq<Seq<char>>
    decreases s.len() + 1 - start,
{
    if start < 0 || start >= s.len() {
        Seq::empty()
    } else {
        let j = first_from(s, '\n', start);
        if j < start || j > s.len() {
            Seq::empty()
        } else {
            let line = s.subrange(start, j);
            let line = if j < s.len() && line.len() > 0 && line.last() == '\r' {
                line.drop_last()
            } else {
                line
            };
            seq![line] + lines_from(s, j + 1)
        }
    }
}

/// The lines of a text.
pub open spec fn lines_of(s: Seq<char>) -> Seq<Seq<char>> {
    lines_from(s, 0)
}

/// The views of a sequence of strings.
pub open spec fn views(v: Seq<String>) -> Seq<Seq<char>> {
    v.map_values(|x: String| x@)
}

/// Splits a text into its lines.
pub fn split_lines(text: &str) -> (r: Vec<String>)
    ensures
        views(r@) == lines_of(text@),
        forall|i: int| 0 <= i < r.len() ==> !(#[trigger] r@[i]@).contains('\n'),
{
    let v = chars_of(text);
    let n = v.len();
    let mut r: Vec<String> = Vec::new();
    let mut start: usize = 0;
    while start < n
        invariant
            v@ == text@,
            n == v.len(),
            start <= n,
            views(r@) + lines_from(v@, start as int) == lines_of(v@),
            forall|i: int| 0 <= i < r.len() ==> !(#[trigger] r@[i]@).contains('\n'),
        decreases n - start,
    {
        let j = find_from(&v, '\n', start);
        proof { lemma_first_from(v@, '\n', start as int); }
        let end: usize = if j < n && j > start && v[j - 1] == '\r' { j - 1 } else { j };
        let line = String::from_str(text.substring_char(start, end));
        assert(line@ =~= if j < n && v@.subrange(start as int, j as int).len() > 0
            && v@.subrange(start as int, j as int).last() == '\r' {
            v@.subrange(start as int, j as int).drop_last()
        } else {
            v@.subrange(start as int, j as int)
        });
        assert(!line@.contains('\n')) by {
            if line@.contains('\n') {
                let k = choose|k: int| 0 <= k < line@.len() && line@[k] == '\n';
                assert(v@[start + k] == '\n');
            }
        }
        let ghost before = r@;
        r.push(line);
        assert(views(r@) =~= views(before).push(line@));
        assert(views(r@) + lines_from(v@, (j + 1) as int) =~= views(before) + lines_from(
            v@,
            start as int,
        ));
        start = if j < n { j + 1 } else { n };
    }
    assert(views(r@) =~= lines_of(v@));
    r
}

/// The colored lines of a header block: a blank line, the colored status line, then each
/// colored header line, in order.
pub open spec fn colored_lines(lines: Seq<Seq<char>>) -> Seq<Seq<char>> {
    if lines.len() == 0 {
        Seq::empty()
    } else {
        seq![Seq::empty(), status_colored(lines[0])] + lines.skip(1).map_values(
            |l: Seq<char>| header_colored(l),
        )
    }
}

/// Lines joined with `\n` between them.
pub open spec fn join_lines(lines: Seq<Seq<char>>) -> Seq<char>
    decreases lines.len(),
{
    if lines.len() == 0 {
        Seq::empty()
    } else if lines.len() == 1 {
        lines[0]
    } else {
        join_lines(lines.drop_last()) + seq!['\n'] + lines.last()
    }
}

/// Colors split header lines.
pub fn colorize_lines(lines: &Vec<String>) -> (r: Vec<String>)
    requires
        forall|i: int| 0 <= i < lines.len() ==> !(#[trigger] lines@[i]@).contains('\n'),
    ensures
        views(r@) == colored_lines(views(lines@)),
{
    let mut r: Vec<String> = Vec::new();
    let ghost ls = views(lines@);
    if lines.len() == 0 {
        assert(views(r@) =~= colored_lines(ls));
        return r;
    }
    r.push(String::new());
    r.push(colorize_status(lines[0].as_str()));
    let mut i: usize = 1;
    while i < lines.len()
        invariant
            1 <= i <= lines.len(),
            ls == views(lines@),
            forall|k: int| 0 <= k < lines.len() ==> !(#[trigger] lines@[k]@).contains('\n'),
            views(r@) =~= seq![Seq::empty(), status_colored(ls[0])] + ls.subrange(1, i as int).map_values(
                |l: Seq<char>| header_colored(l),
            ),
        decreases lines.len() - i,
    {
        assert(lines@[i as int]@ == ls[i as int]);
        let ghost before = r@;
        r.push(colorize_header(lines[i].as_str()));
        assert(views(r@) =~= views(before).push(header_colored(ls[i as int])));
        assert(ls.subrange(1, i + 1) =~= ls.subrange(1, i as int).push(ls[i as int]));
        assert(ls.subrange(1, i + 1).map_values(|l: Seq<char>| header_colored(l)) =~= ls.subrange(
            1,
            i as int,
        ).map_values(|l: Seq<char>| header_colored(l)).push(header_colored(ls[i as int])));
        i = i + 1;
        assert(views(r@) =~= seq![Seq::empty(), status_colored(ls[0])] + ls.subrange(1, i as int).map_values(
            |l: Seq<char>| header_colored(l),
        ));
    }
    assert(ls.subrange(1, i as int) =~= ls.skip(1));
    r
}

/// Joins lines with `\n`.
pub fn join_with_newlines(lines: &Vec<String>) -> (r: String)
    ensures
        r@ == join_lines(views(lines@)),
{
    let mut r = String::new();
    let ghost ls = views(lines@);
    let mut i: usize = 0;
    while i < lines.len()
        invariant
            i <= lines.len(),
            ls == views(lines@),
            r@ == join_lines(ls.take(i as int)),
        decreases lines.len() - i,
    {
        if i > 0 {
            proof { reveal_strlit("\n"); }
            r.append("\n");
        }
        r.append(lines[i].as_str());
        i = i + 1;
        assert(ls.take(i as int).drop_last() =~= ls.take(i - 1));
        assert(ls.take(1) =~= seq![ls[0]]);
    }
    assert(ls.take(i as int) =~= ls);
    r
}

/// Colors a header block: a blank line, then the colored status line and header lines,
/// joined with `\n`.
pub fn colorize_headers(block: &str) -> (r: String)
    ensures
        r@ == join_lines(colored_lines(lines_of(block@))),
{
    let lines = split_lines(block);
    let colored = colorize_lines(&lines);
    join_with_newlines(&colored)
}

/// Coloring keeps the lines and their order, adding one blank line in front, and a line
/// after the status line that holds no `:` comes out as it went in.
pub proof fn lemma_colorize_keeps_lines(lines: Seq<Seq<char>>)
    requires
        lines.len() > 0,
    ensures
        colored_lines(lines).len() == lines.len() + 1,
        colored_lines(lines)[0] == Seq::<char>::empty(),
        colored_lines(lines)[1] == status_colored(lines[0]),
        forall|i: int| 1 <= i < lines.len() ==> colored_lines(lines)[i + 1] == header_colored(#[trigger] lines[i]),
        forall|i: int| 1 <= i < lines.len() && !(#[trigger] lines[i]).contains(':') ==> colored_lines(lines)[i + 1] == lines[i],
{
    assert forall|i: int| 1 <= i < lines.len() implies colored_lines(lines)[i + 1] == header_colored(#[trigger] lines[i]) by {
        assert(lines.skip(1)[i - 1] == lines[i]);
    }
    assert forall|i: int| 1 <= i < lines.len() && !(#[trigger] lines[i]).contains(':') implies colored_lines(lines)[i + 1] == lines[i] by {
        assert(lines.skip(1)[i - 1] == lines[i]);
        lemma_unsplit_without_separator(lines[i], ':');
    }
}

/// Where a line splits, the two parts around the separator make up the line.
pub proof fn lemma_split_rejoins(line: Seq<char>, sep: char)
    requires
        sep_split(line, sep) is Some,
    ensures
        line == (sep_split(line, sep)->0).0 + seq![sep] + (sep_split(line, sep)->0).1,
{
    let k = first_from(line, sep, 1);
    lemma_first_from(line, sep, 1);
    assert(line =~= line.take(k) + seq![sep] + line.skip(k + 1));
}

/// Coloring only inserts escape sequences: a colored line is either the line itself or
/// its two parts around the separator, each wrapped in escapes, with the separator kept.
pub proof fn lemma_coloring_inserts_only_escapes(line: Seq<char>)
    ensures
        status_colored(line) == line || exists|a: Seq<char>, b: Seq<char>|
            line == a + seq!['/'] + b && status_colored(line) == escape_of(Color::Green) + a
                + escape_of(Color::Reset) + seq!['/'] + escape_of(Color::Cyan) + b + escape_of(
                Color::Reset,
            ),
        header_colored(line) == line || exists|a: Seq<char>, b: Seq<char>|
            line == a + seq![':'] + b && header_colored(line) == a + seq![':'] + escape_of(
                Color::Cyan,
            ) + b + escape_of(Color::Reset),
{
    if let Some((a, b)) = sep_split(line, '/') {
        lemma_split_rejoins(line, '/');
        assert(line == a + seq!['/'] + b);
    }
    if let Some((a, b)) = sep_split(line, ':') {
        lemma_split_rejoins(line, ':');
        assert(line == a + seq![':'] + b);
    }
}

/// A line without the separator does not split.
pub proof fn lemma_unsplit_without_separator(line: Seq<char>, sep: char)
    requires
        !line.contains(sep),
    ensures
        sep_split(line, sep) is None,
{
    if line.len() >= 1 {
        lemma_first_from(line, sep, 1);
        let k = first_from(line, sep, 1);
        if k < line.len() {
            assert(line[k] == sep);
        }
    }
}

} // verus!
