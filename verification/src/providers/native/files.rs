//! Reading, writing and editing files, as a model is told of it.

use vstd::prelude::*;

use crate::config;
use crate::text;

verus! {

broadcast use vstd::string::group_string_axioms;

/// Lines that are shown where no limit is given.
pub const DEFAULT_READ_LIMIT: usize = 2000;

/// The file that a path means: a relative one lies in the workspace.
pub open spec fn target_of(workspace: Seq<char>, path: Seq<char>) -> Seq<char> {
    if text::at(path, "/"@, 0) {
        path
    } else {
        config::path_in(workspace, path)
    }
}

/// The file that a path means.
pub fn resolve(workspace: &str, path: &str) -> (r: String)
    ensures
        r@ == target_of(workspace@, path@),
{
    if text::starts_with(path, "/") {
        path.to_owned()
    } else {
        config::join_path(workspace, path)
    }
}

// ---------------------------------------------------------------------------
// Reading

/// A line without the carriage return at its end.
pub open spec fn without_return(line: Seq<char>) -> Seq<char> {
    if line.len() > 0 && line.last() == '\r' {
        line.drop_last()
    } else {
        line
    }
}

/// The lines of a text. A line ends with a line feed, with or without a carriage
/// return before it; what follows the last line feed is a line if it is not empty.
pub open spec fn lines_of(s: Seq<char>) -> Seq<Seq<char>> {
    let parts = text::pieces(s, '\n', 0);
    let ended = parts.drop_last().map_values(|line: Seq<char>| without_return(line));
    if parts.last().len() == 0 {
        ended
    } else {
        ended.push(parts.last())
    }
}

fn strip_return(line: &str) -> (r: String)
    ensures
        r@ == without_return(line@),
{
    let letters = text::chars(line);
    if letters.len() > 0 && letters[letters.len() - 1] == '\r' {
        let r = text::slice(&letters, 0, letters.len() - 1);
        assert(r@ =~= line@.drop_last());
        r
    } else {
        line.to_owned()
    }
}

proof fn lemma_pieces_not_empty(s: Seq<char>, c: char)
    ensures
        text::pieces(s, c, 0).len() > 0,
{
    reveal_with_fuel(text::pieces, 2);
}

fn split_lines(s: &str) -> (r: Vec<String>)
    ensures
        text::views(r@) == lines_of(s@),
{
    let parts = text::split(s, '\n');
    let ghost all = text::pieces(s@, '\n', 0);
    proof {
        lemma_pieces_not_empty(s@, '\n');
        assert(parts@.len() == text::views(parts@).len());
    }
    let last: usize = parts.len() - 1;
    let ghost ended = all.drop_last().map_values(|line: Seq<char>| without_return(line));
    let mut out: Vec<String> = Vec::new();
    let mut i: usize = 0;
    while i < last
        invariant
            i <= last,
            last == parts@.len() - 1,
            all == text::views(parts@),
            out@.len() == i,
            forall|j: int| 0 <= j < i ==> (#[trigger] out@[j])@ == without_return(all[j]),
        decreases last - i,
    {
        assert(all[i as int] == parts@[i as int]@);
        out.push(strip_return(&parts[i]));
        i += 1;
    }
    assert(text::views(out@) =~= ended);
    assert(all.last() == parts@[last as int]@);
    if parts[last].as_str().unicode_len() > 0 {
        out.push(parts[last].clone());
        assert(text::views(out@) =~= ended.push(all.last()));
    }
    out
}

/// A number, with spaces before it up to six characters.
pub open spec fn aligned(n: int) -> Seq<char> {
    let shown = text::decimal(n);
    Seq::new(
        if shown.len() < 6 {
            (6 - shown.len()) as nat
        } else {
            0
        },
        |i: int| ' ',
    ) + shown
}

fn align(n: usize) -> (r: String)
    ensures
        r@ == aligned(n as int),
{
    let shown = text::decimal_u64(n as u64);
    let len: usize = shown.as_str().unicode_len();
    let mut out = String::new();
    let mut i: usize = len;
    assert(out@ =~= Seq::new(0nat, |j: int| ' '));
    while i < 6
        invariant
            len == shown@.len(),
            len <= i,
            i <= 6 || i == len,
            out@ == Seq::new((i - len) as nat, |j: int| ' '),
        decreases 6 - i,
    {
        out.push(' ');
        assert(out@ =~= Seq::new((i + 1 - len) as nat, |j: int| ' '));
        i += 1;
    }
    out.append(&shown);
    assert(out@ =~= aligned(n as int));
    out
}

/// The lines from one index up to another, each with its number.
pub open spec fn rows_of(lines: Seq<Seq<char>>, from: int, to: int) -> Seq<char>
    decreases to - from,
{
    if to <= from {
        Seq::empty()
    } else {
        rows_of(lines, from, to - 1) + (aligned(to) + "\t"@ + lines[to - 1] + "\n"@)
    }
}

/// The first line to show, counted from one.
pub open spec fn start_of(offset: Option<usize>) -> int {
    match offset {
        Some(n) => if n < 1 {
            1
        } else {
            n as int
        },
        None => 1,
    }
}

/// The most lines to show.
pub open spec fn limit_of(limit: Option<usize>) -> int {
    match limit {
        Some(n) => if n < 1 {
            1
        } else {
            n as int
        },
        None => DEFAULT_READ_LIMIT as int,
    }
}

/// What a model is told of a file: numbered lines, and how many more there are.
pub open spec fn read_text(
    path: Seq<char>,
    content: Seq<char>,
    offset: Option<usize>,
    limit: Option<usize>,
) -> Seq<char> {
    let lines = lines_of(content);
    let total = lines.len() as int;
    let from = start_of(offset) - 1;
    let to = if from + limit_of(limit) < total {
        from + limit_of(limit)
    } else {
        total
    };
    if from >= total {
        "(empty — "@ + path + " has "@ + text::decimal(total) + " lines)"@
    } else {
        text::trim_end(
            rows_of(lines, from, to) + (if to < total {
                "[… "@ + text::decimal(total - to) + " more lines …]"@
            } else {
                Seq::empty()
            }),
        )
    }
}

/// What a model is told of a file whose content was read.
pub fn read(path: &str, content: &str, offset: Option<usize>, limit: Option<usize>) -> (r: String)
    ensures
        r@ == read_text(path@, content@, offset, limit),
{
    let lines = split_lines(content);
    let ghost all = lines_of(content@);
    let total: usize = lines.len();
    assert(total == all.len());
    let start: usize = match offset {
        Some(n) => if n < 1 {
            1
        } else {
            n
        },
        None => 1,
    };
    let most: usize = match limit {
        Some(n) => if n < 1 {
            1
        } else {
            n
        },
        None => DEFAULT_READ_LIMIT,
    };
    let from: usize = start - 1;
    if from >= total {
        let mut out = text::concat3("(empty — ", path, " has ");
        out.append(&text::decimal_u64(total as u64));
        out.append(" lines)");
        return out;
    }
    let to: usize = if most < total - from {
        from + most
    } else {
        total
    };
    let mut out = String::new();
    let mut i: usize = from;
    assert(out@ =~= Seq::empty());
    while i < to
        invariant
            from <= i <= to,
            to <= total,
            total == lines@.len(),
            all == text::views(lines@),
            out@ == rows_of(all, from as int, i as int),
        decreases to - i,
    {
        let ghost was = out@;
        let number = align(i + 1);
        out.append(&number);
        out.append("\t");
        out.append(&lines[i]);
        out.append("\n");
        assert(out@ =~= was + (aligned(i + 1) + "\t"@ + all[i as int] + "\n"@));
        i += 1;
    }
    let ghost rows = out@;
    if to < total {
        out.append("[… ");
        out.append(&text::decimal_u64((total - to) as u64));
        out.append(" more lines …]");
        assert(out@ =~= rows + ("[… "@ + text::decimal(total - to) + " more lines …]"@));
    } else {
        assert(out@ =~= rows + Seq::empty());
    }
    text::trimmed_end(&out)
}

/// What a model is told of a file that could not be read.
pub fn unreadable(path: &str, reason: &str) -> (r: String)
    ensures
        r@ == "error: cannot read "@ + path@ + ": "@ + reason@,
{
    let mut out = text::concat3("error: cannot read ", path, ": ");
    out.append(reason);
    out
}

// ---------------------------------------------------------------------------
// Writing

/// What a model is told of a file that was written.
pub fn written(path: &str, content: &str) -> (r: String)
    ensures
        r@ == "wrote "@ + text::decimal(text::bytes(content@)) + " bytes to "@ + path@,
{
    let mut out = text::concat3(
        "wrote ",
        &text::decimal_u64(text::byte_len(content) as u64),
        " bytes to ",
    );
    out.append(path);
    out
}

/// What a model is told of a file that could not be written.
pub fn unwritable(path: &str, reason: &str) -> (r: String)
    ensures
        r@ == "error: cannot write "@ + path@ + ": "@ + reason@,
{
    let mut out = text::concat3("error: cannot write ", path, ": ");
    out.append(reason);
    out
}

/// What a model is told of a file whose directories could not be made.
pub fn no_directories(path: &str, reason: &str) -> (r: String)
    ensures
        r@ == "error: cannot create directories for "@ + path@ + ": "@ + reason@,
{
    let mut out = text::concat3("error: cannot create directories for ", path, ": ");
    out.append(reason);
    out
}

// ---------------------------------------------------------------------------
// Editing

/// How often a text occurs in another from an index on, counted without overlap.
pub open spec fn matches_from(s: Seq<char>, needle: Seq<char>, from: int) -> nat
    decreases s.len() - from,
{
    if needle.len() == 0 || from < 0 || from + needle.len() > s.len() {
        0
    } else if text::at(s, needle, from) {
        1 + matches_from(s, needle, from + needle.len())
    } else {
        matches_from(s, needle, from + 1)
    }
}

/// What an edit makes of a content, or what the model is told instead. What is to
/// be replaced must occur exactly once.
pub open spec fn edited(
    path: Seq<char>,
    content: Seq<char>,
    old_string: Seq<char>,
    new_string: Seq<char>,
) -> Result<Seq<char>, Seq<char>> {
    let count = matches_from(content, old_string, 0);
    if old_string.len() == 0 {
        Err("error: old_string must not be empty"@)
    } else if count == 0 {
        Err("error: old_string not found in "@ + path)
    } else if count == 1 {
        let (head, tail) = text::cut(content, old_string)->0;
        Ok(head + new_string + tail)
    } else {
        Err(
            "error: old_string matches "@ + text::decimal(count as int) + " times in "@ + path
                + "; it must be unique"@,
        )
    }
}

proof fn lemma_matches_within(s: Seq<char>, needle: Seq<char>, from: int)
    requires
        matches_from(s, needle, from) > 0,
    ensures
        text::within(s, needle),
    decreases s.len() - from,
{
    if !text::at(s, needle, from) {
        lemma_matches_within(s, needle, from + 1);
    }
}

proof fn lemma_matches_bound(s: Seq<char>, needle: Seq<char>, from: int)
    requires
        0 <= from,
    ensures
        from <= s.len() ==> matches_from(s, needle, from) <= s.len() - from,
        from > s.len() ==> matches_from(s, needle, from) == 0,
    decreases s.len() - from,
{
    if needle.len() == 0 || from + needle.len() > s.len() {
    } else if text::at(s, needle, from) {
        lemma_matches_bound(s, needle, from + needle.len());
    } else {
        lemma_matches_bound(s, needle, from + 1);
    }
}

fn count_matches(s: &str, needle: &str) -> (r: usize)
    requires
        needle@.len() > 0,
    ensures
        r == matches_from(s@, needle@, 0),
{
    let hay = text::chars(s);
    let mark = text::chars(needle);
    let mut count: usize = 0;
    let mut i: usize = 0;
    proof {
        lemma_matches_bound(s@, needle@, 0);
    }
    while i < hay.len()
        invariant
            hay@ == s@,
            mark@ == needle@,
            needle@.len() > 0,
            i <= hay@.len(),
            count <= i,
            count + matches_from(s@, needle@, i as int) == matches_from(s@, needle@, 0),
            matches_from(s@, needle@, 0) <= s@.len(),
        decreases hay@.len() - i,
    {
        match text::find_from(&hay, &mark, i) {
            None => {
                proof {
                    lemma_no_match(s@, needle@, i as int);
                }
                return count;
            },
            Some(j) => {
                proof {
                    lemma_next_match(s@, needle@, i as int, j as int);
                }
                assert(j + mark.len() <= hay.len());
                count = count + 1;
                i = j + mark.len();
            },
        }
    }
    count
}

proof fn lemma_no_match(s: Seq<char>, needle: Seq<char>, from: int)
    requires
        0 <= from,
        forall|j: int| from <= j ==> !text::at(s, needle, j),
    ensures
        matches_from(s, needle, from) == 0,
    decreases s.len() - from,
{
    if needle.len() > 0 && from + needle.len() <= s.len() {
        assert(!text::at(s, needle, from));
        lemma_no_match(s, needle, from + 1);
    }
}

proof fn lemma_next_match(s: Seq<char>, needle: Seq<char>, from: int, j: int)
    requires
        0 <= from <= j,
        needle.len() > 0,
        text::at(s, needle, j),
        forall|k: int| from <= k < j ==> !text::at(s, needle, k),
    ensures
        matches_from(s, needle, from) == 1 + matches_from(s, needle, j + needle.len()),
    decreases j - from,
{
    if from < j {
        assert(!text::at(s, needle, from));
        lemma_next_match(s, needle, from + 1, j);
    }
}

/// What an edit makes of a content, or what the model is told instead.
pub fn edit(path: &str, content: &str, old_string: &str, new_string: &str) -> (r: Result<
    String,
    String,
>)
    ensures
        match r {
            Ok(updated) => edited(path@, content@, old_string@, new_string@) == Ok::<
                Seq<char>,
                Seq<char>,
            >(updated@),
            Err(told) => edited(path@, content@, old_string@, new_string@) == Err::<
                Seq<char>,
                Seq<char>,
            >(told@),
        },
{
    if old_string.unicode_len() == 0 {
        return Err("error: old_string must not be empty".to_owned());
    }
    let count: usize = count_matches(content, old_string);
    if count == 0 {
        return Err(text::concat2("error: old_string not found in ", path));
    }
    if count == 1 {
        proof {
            lemma_matches_within(content@, old_string@, 0);
        }
        return match text::split_once(content, old_string) {
            Some((head, tail)) => Ok(text::concat3(&head, new_string, &tail)),
            None => vstd::pervasive::unreached(),
        };
    }
    let mut out = text::concat3(
        "error: old_string matches ",
        &text::decimal_u64(count as u64),
        " times in ",
    );
    out.append(path);
    out.append("; it must be unique");
    Err(out)
}

/// What a model is told of a file that was edited.
pub fn edit_done(path: &str) -> (r: String)
    ensures
        r@ == "edited "@ + path@,
{
    text::concat2("edited ", path)
}

// ---------------------------------------------------------------------------
// Laws

/// An absolute path is taken as it is, and a relative one lies in the workspace.
pub proof fn relative_paths_lie_in_the_workspace(workspace: Seq<char>, path: Seq<char>)
    ensures
        text::at(path, "/"@, 0) ==> target_of(workspace, path) == path,
        !text::at(path, "/"@, 0) ==> target_of(workspace, path).take(workspace.len() as int)
            == workspace,
{
    config::derived_paths_lie_in_the_directory(workspace, path);
}

/// An edit changes the place that it names and nothing else.
pub proof fn edits_change_one_place(
    path: Seq<char>,
    content: Seq<char>,
    old_string: Seq<char>,
    new_string: Seq<char>,
)
    ensures
        edited(path, content, old_string, new_string) matches Ok(updated) ==> exists|
            head: Seq<char>,
            tail: Seq<char>,
        |
            content == #[trigger] (head + old_string + tail) && updated == head + new_string + tail,
{
    if edited(path, content, old_string, new_string) is Ok {
        lemma_matches_within(content, old_string, 0);
        text::lemma_cut_parts(content, old_string);
        let (head, tail) = text::cut(content, old_string)->0;
        assert(content == head + old_string + tail);
    }
}

/// An edit that puts back what it takes out changes nothing.
pub proof fn replacing_a_text_by_itself_changes_nothing(
    path: Seq<char>,
    content: Seq<char>,
    old_string: Seq<char>,
)
    ensures
        edited(path, content, old_string, old_string) matches Ok(updated) ==> updated == content,
{
    if edited(path, content, old_string, old_string) is Ok {
        lemma_matches_within(content, old_string, 0);
        text::lemma_cut_parts(content, old_string);
    }
}

/// A text that occurs more than once is not edited.
pub proof fn ambiguous_edits_are_refused(
    path: Seq<char>,
    content: Seq<char>,
    old_string: Seq<char>,
    new_string: Seq<char>,
)
    requires
        matches_from(content, old_string, 0) != 1,
    ensures
        edited(path, content, old_string, new_string) is Err,
{
}

/// The lines of a text are what stands between its line ends, each without the
/// return that may stand before its end; a line end at the very end begins no line.
pub proof fn lines_are_told_apart_by_their_ends(line: Seq<char>, rest: Seq<char>)
    requires
        !line.contains('\n'),
    ensures
        lines_of(line.push('\n') + rest) == seq![
            if line.len() > 0 && line.last() == '\r' {
                line.drop_last()
            } else {
                line
            },
        ] + lines_of(rest),
        line.len() > 0 ==> lines_of(line) == seq![line],
        lines_of(Seq::empty()).len() == 0,
{
    text::lemma_pieces_join(line, '\n', rest);
    text::lemma_one_piece(line, '\n');
    text::lemma_one_piece(Seq::<char>::empty(), '\n');
    let head = seq![line];
    let tail = text::pieces(rest, '\n', 0);
    let parts = head + tail;
    assert(tail.len() > 0) by {
        text::lemma_next_char_range(rest, '\n', 0);
    }
    assert(parts.last() == tail.last());
    assert(parts.drop_last() =~= head + tail.drop_last());
    assert(parts.drop_last().map_values(|l: Seq<char>| without_return(l)) =~= seq![
        without_return(line),
    ] + tail.drop_last().map_values(|l: Seq<char>| without_return(l)));
    assert(lines_of(line.push('\n') + rest) =~= seq![without_return(line)] + lines_of(rest));
    assert(lines_of(line) =~= if line.len() > 0 {
        seq![line]
    } else {
        Seq::<Seq<char>>::empty()
    });
    assert(lines_of(Seq::empty()) =~= Seq::empty());
}

/// A file is shown from the line that is asked for, and as many lines as are asked
/// for: from the first line on and two thousand of them where the call does not say.
/// Lines that remain are counted. A start behind the end shows nothing.
pub proof fn reads_show_what_is_asked_for(
    path: Seq<char>,
    content: Seq<char>,
    offset: Option<usize>,
    limit: Option<usize>,
)
    requires
        offset matches Some(n) ==> n >= 1,
        limit matches Some(n) ==> n >= 1,
    ensures
        ({
            let lines = lines_of(content);
            let total = lines.len() as int;
            let first = match offset {
                Some(n) => n as int,
                None => 1,
            };
            let count = match limit {
                Some(n) => n as int,
                None => 2000,
            };
            let shown = read_text(path, content, offset, limit);
            &&& first > total ==> text::within(shown, text::decimal(total))
            &&& first <= total && first - 1 + count >= total ==> shown == text::trim_end(
                rows_of(lines, first - 1, total),
            )
            &&& first <= total && first - 1 + count < total ==> shown == text::trim_end(
                rows_of(lines, first - 1, first - 1 + count) + ("[… "@ + text::decimal(
                    total - (first - 1 + count),
                ) + " more lines …]"@),
            )
        }),
{
    let total = lines_of(content).len() as int;
    let head = "(empty — "@ + path + " has "@;
    let number = text::decimal(total);
    let whole = head + number + " lines)"@;
    assert(whole.subrange(head.len() as int, head.len() + number.len() as int) =~= number);
    assert(text::at(whole, number, head.len() as int));
    let lines = lines_of(content);
    let first = match offset {
        Some(n) => n as int,
        None => 1,
    };
    assert(rows_of(lines, first - 1, total) + Seq::<char>::empty() =~= rows_of(
        lines,
        first - 1,
        total,
    ));
}

/// Each line that is shown stands in a row of its own behind its number, counted
/// from one.
pub proof fn lines_are_shown_with_their_number(lines: Seq<Seq<char>>, from: int, to: int)
    requires
        0 <= from < to <= lines.len(),
    ensures
        exists|margin: Seq<char>|
            (forall|i: int| 0 <= i < margin.len() ==> margin[i] == ' ') && rows_of(lines, from, to)
                == rows_of(lines, from, to - 1) + #[trigger] (margin + text::decimal(to) + "\t"@
                + lines[to - 1] + "\n"@),
        rows_of(lines, from, from).len() == 0,
{
    let shown = text::decimal(to);
    let margin = Seq::new(
        if shown.len() < 6 {
            (6 - shown.len()) as nat
        } else {
            0
        },
        |i: int| ' ',
    );
    assert(aligned(to) =~= margin + shown);
    assert(rows_of(lines, from, to) =~= rows_of(lines, from, to - 1) + (margin + shown + "\t"@
        + lines[to - 1] + "\n"@));
}

proof fn lemma_only_match(s: Seq<char>, needle: Seq<char>, n: int, from: int)
    requires
        needle.len() > 0,
        0 <= from,
        text::at(s, needle, n),
        forall|j: int| j != n ==> !text::at(s, needle, j),
    ensures
        from <= n ==> matches_from(s, needle, from) == 1,
        from > n ==> matches_from(s, needle, from) == 0,
    decreases s.len() - from,
{
    if from + needle.len() <= s.len() {
        if from == n {
            lemma_only_match(s, needle, n, from + needle.len());
        } else {
            lemma_only_match(s, needle, n, from + 1);
        }
    }
}

/// A text that stands in a file once is replaced there, and all around it stays.
pub proof fn the_only_place_is_edited(
    path: Seq<char>,
    head: Seq<char>,
    old_string: Seq<char>,
    tail: Seq<char>,
    new_string: Seq<char>,
)
    requires
        old_string.len() > 0,
        forall|j: int| j != head.len() ==> !text::at(head + old_string + tail, old_string, j),
    ensures
        edited(path, head + old_string + tail, old_string, new_string) == Ok::<
            Seq<char>,
            Seq<char>,
        >(head + new_string + tail),
{
    let content = head + old_string + tail;
    let n = head.len() as int;
    assert(content.subrange(n, n + old_string.len()) =~= old_string);
    assert(text::at(content, old_string, n));
    lemma_only_match(content, old_string, n, 0);
    text::lemma_cut_at(content, old_string, n);
    assert(content.take(n) =~= head);
    assert(content.skip(n + old_string.len()) =~= tail);
}

/// A text that a file does not hold is not edited, and neither is an empty one.
pub proof fn what_is_not_there_is_not_edited(
    path: Seq<char>,
    content: Seq<char>,
    old_string: Seq<char>,
    new_string: Seq<char>,
)
    requires
        !text::within(content, old_string) || old_string.len() == 0,
    ensures
        edited(path, content, old_string, new_string) is Err,
{
    if old_string.len() > 0 {
        lemma_no_match(content, old_string, 0);
    }
}

/// Numbers of up to six digits are shown in six places, and larger ones as they are;
/// what stands before the digits is spaces.
pub proof fn numbers_stand_in_six_places(n: int, i: int)
    ensures
        text::decimal(n).len() <= 6 ==> aligned(n).len() == 6,
        text::decimal(n).len() > 6 ==> aligned(n) == text::decimal(n),
        aligned(n).skip(aligned(n).len() - text::decimal(n).len()) == text::decimal(n),
        0 <= i < aligned(n).len() - text::decimal(n).len() ==> aligned(n)[i] == ' ',
{
    assert(aligned(n).skip(aligned(n).len() - text::decimal(n).len()) =~= text::decimal(n));
    if text::decimal(n).len() > 6 {
        assert(aligned(n) =~= text::decimal(n));
    }
}

} // verus!
