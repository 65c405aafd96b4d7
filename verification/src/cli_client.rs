//! The admin command line: what its words mean, and how an answer is shown.

use vstd::prelude::*;

use crate::json;
use crate::json::{Fields, Json, JsonView};
use crate::protocol::frame::{ResponseFrame, ResponseView};
use crate::text;

verus! {

broadcast use vstd::string::group_string_axioms;

/// Why a command line came to nothing.
#[derive(Debug, PartialEq, Eq)]
pub enum CliError {
    Usage,
    Connect { path: String, source: String },
    Failed(String),
}

impl CliError {
    /// The error as one line of text.
    pub open spec fn message_text(&self) -> Seq<char> {
        match self {
            CliError::Usage => "usage: claw <resource> <verb> [--key value …]"@,
            CliError::Connect { path, source } => "could not reach the daemon at "@ + path@ + " ("@
                + source@ + "). Is `claw serve` running?"@,
            CliError::Failed(message) => message@,
        }
    }

    /// The error as one line of text.
    pub fn message(&self) -> (r: String)
        ensures
            r@ == self.message_text(),
    {
        match self {
            CliError::Usage => "usage: claw <resource> <verb> [--key value …]".to_owned(),
            CliError::Connect { path, source } => {
                let mut out = "could not reach the daemon at ".to_owned();
                out.append(path);
                out.append(" (");
                out.append(source);
                out.append("). Is `claw serve` running?");
                out
            },
            CliError::Failed(message) => message.clone(),
        }
    }
}

// ---------------------------------------------------------------------------
// Words

/// Whether a word is a flag.
pub open spec fn is_flag(word: Seq<char>) -> bool {
    text::at(word, "--"@, 0)
}

/// The arguments that words add to those before them: `--key=value`, `--key
/// value`, or a `--flag` alone, which is true. `None` where a value stands
/// without a flag.
pub open spec fn flags_of(words: Seq<Seq<char>>, from: int, args: Fields) -> Option<Fields>
    decreases words.len() - from,
{
    if from >= words.len() {
        Some(args)
    } else if !is_flag(words[from]) {
        None
    } else {
        let flag = words[from].skip(2);
        match text::cut(flag, "="@) {
            Some((key, value)) => flags_of(
                words,
                from + 1,
                json::put(args, key, JsonView::Text(value)),
            ),
            None => if from + 1 < words.len() && !is_flag(words[from + 1]) {
                flags_of(
                    words,
                    from + 2,
                    json::put(args, flag, JsonView::Text(words[from + 1])),
                )
            } else {
                flags_of(words, from + 1, json::put(args, flag, JsonView::Bool(true)))
            },
        }
    }
}

/// The command and the arguments that a command line asks for; `None` for words
/// that make no command line.
pub open spec fn command_of(words: Seq<Seq<char>>) -> Option<(Seq<char>, Fields)> {
    if words.len() < 2 {
        None
    } else {
        match flags_of(words, 2, Seq::empty()) {
            Some(args) => Some((words[0] + "-"@ + words[1], args)),
            None => None,
        }
    }
}

/// What a command line asks for: the words after the program's name.
pub fn parse(argv: &Vec<String>) -> (r: Result<(String, Vec<(String, Json)>), CliError>)
    ensures
        match r {
            Ok((command, args)) => command_of(text::views(argv@)) == Some(
                (command@, json::fields_view(args@)),
            ),
            Err(e) => command_of(text::views(argv@)) is None && e == CliError::Usage,
        },
{
    let ghost words = text::views(argv@);
    if argv.len() < 2 {
        return Err(CliError::Usage);
    }
    let command = text::concat3(&argv[0], "-", &argv[1]);
    let mut args: Vec<(String, Json)> = Vec::new();
    let mut i: usize = 2;
    assert(json::fields_view(args@) =~= Seq::empty());
    proof {
        reveal_strlit("--");
    }
    while i < argv.len()
        invariant
            2 <= i,
            words == text::views(argv@),
            words.len() >= 2,
            "--"@.len() == 2,
            flags_of(words, 2, Seq::empty()) == flags_of(
                words,
                i as int,
                json::fields_view(args@),
            ),
            i <= argv@.len(),
        decreases argv@.len() - i,
    {
        let ghost was = json::fields_view(args@);
        assert(words[i as int] == argv@[i as int]@);
        if !text::starts_with(&argv[i], "--") {
            return Err(CliError::Usage);
        }
        let letters = text::chars(&argv[i]);
        let flag = text::slice(&letters, 2, letters.len());
        assert(flag@ =~= words[i as int].skip(2));
        match text::split_once(&flag, "=") {
            Some((key, value)) => {
                json::set_field(&mut args, &key, Json::Text(value));
                i += 1;
            },
            None => {
                if i + 1 < argv.len() && !text::starts_with(&argv[i + 1], "--") {
                    assert(words[i + 1] == argv@[i + 1]@);
                    json::set_field(&mut args, &flag, Json::Text(argv[i + 1].clone()));
                    i += 2;
                } else {
                    assert(i + 1 < words.len() ==> words[i + 1] == argv@[i + 1]@);
                    json::set_field(&mut args, &flag, Json::Bool(true));
                    i += 1;
                }
            },
        }
    }
    Ok((command, args))
}

// ---------------------------------------------------------------------------
// Cells

/// So many spaces.
pub open spec fn spaces(n: int) -> Seq<char> {
    Seq::new(
        if n > 0 {
            n as nat
        } else {
            0
        },
        |i: int| ' ',
    )
}

/// A text with spaces behind it, up to a number of characters.
pub open spec fn padded(s: Seq<char>, width: int) -> Seq<char> {
    s + spaces(width - s.len())
}

/// What a cell shows: a dash for nothing, a text as it is, and compact JSON for
/// any other value.
pub open spec fn cell_of(value: Option<JsonView>) -> Seq<char> {
    match value {
        None => "-"@,
        Some(JsonView::Null) => "-"@,
        Some(JsonView::Text(s)) => s,
        Some(other) => json::encoded(other),
    }
}

fn cell_text(value: Option<&Json>) -> (r: String)
    ensures
        r@ == cell_of(json::opt_value(value)),
{
    match value {
        None => "-".to_owned(),
        Some(Json::Null) => "-".to_owned(),
        Some(Json::Text(s)) => s.clone(),
        Some(other) => other.encode(),
    }
}

fn pad(s: &str, width: usize) -> (r: String)
    ensures
        r@ == padded(s@, width as int),
{
    let mut out = s.to_owned();
    let mut n: usize = s.unicode_len();
    let ghost start = n;
    assert(spaces(0) =~= Seq::empty());
    assert(out@ =~= s@ + spaces(0));
    while n < width
        invariant
            start == s@.len(),
            start <= n,
            n <= width || n == start,
            out@ == s@ + spaces(n - start),
        decreases width - n,
    {
        let ghost was = out@;
        out.push(' ');
        assert(out@ =~= s@ + spaces(n + 1 - start));
        n += 1;
    }
    assert(spaces(width - s@.len()) =~= spaces(n - start));
    out
}

/// The larger of two numbers.
pub open spec fn larger(a: int, b: int) -> int {
    if a >= b {
        a
    } else {
        b
    }
}

// ---------------------------------------------------------------------------
// Tables

/// The columns so far with the keys of one more row, each once, behind them.
pub open spec fn with_keys(columns: Seq<Seq<char>>, row: Fields) -> Seq<Seq<char>>
    decreases row.len(),
{
    if row.len() == 0 {
        columns
    } else {
        let before = with_keys(columns, row.drop_last());
        if before.contains(row.last().0) {
            before
        } else {
            before.push(row.last().0)
        }
    }
}

/// The columns of a table: every key of every row, in the order in which they
/// first occur.
pub open spec fn columns_of(rows: Seq<Fields>) -> Seq<Seq<char>>
    decreases rows.len(),
{
    if rows.len() == 0 {
        Seq::empty()
    } else {
        with_keys(columns_of(rows.drop_last()), rows.last())
    }
}

/// The width of a column: the bytes of its longest cell, the head included.
pub open spec fn width_of(rows: Seq<Fields>, column: Seq<char>) -> int
    decreases rows.len(),
{
    if rows.len() == 0 {
        text::bytes(column)
    } else {
        larger(
            width_of(rows.drop_last(), column),
            text::bytes(cell_of(json::lookup(rows.last(), column))),
        )
    }
}

/// A line of a table: its cells, padded to their columns.
pub open spec fn line_of(cells: Seq<Seq<char>>, widths: Seq<int>) -> Seq<char> {
    text::trim_end(
        text::joined(Seq::new(cells.len(), |i: int| padded(cells[i], widths[i])), "  "@),
    ) + "\n"@
}

/// The widths of the columns of a table.
pub open spec fn widths_of(rows: Seq<Fields>, columns: Seq<Seq<char>>) -> Seq<int> {
    columns.map_values(|c: Seq<char>| width_of(rows, c))
}

/// The cells of a row.
pub open spec fn cells_of(row: Fields, columns: Seq<Seq<char>>) -> Seq<Seq<char>> {
    columns.map_values(|c: Seq<char>| cell_of(json::lookup(row, c)))
}

/// The lines of some rows.
pub open spec fn lines_of(rows: Seq<Fields>, columns: Seq<Seq<char>>, widths: Seq<int>) -> Seq<char>
    decreases rows.len(),
{
    if rows.len() == 0 {
        Seq::empty()
    } else {
        lines_of(rows.drop_last(), columns, widths) + line_of(
            cells_of(rows.last(), columns),
            widths,
        )
    }
}

/// A table: a head and a line for each row.
pub open spec fn table_of(rows: Seq<Fields>) -> Seq<char> {
    if rows.len() == 0 {
        "(none)\n"@
    } else {
        let columns = columns_of(rows);
        let widths = widths_of(rows, columns);
        line_of(columns, widths) + lines_of(rows, columns, widths)
    }
}

/// Whether every value of a list is an object.
pub open spec fn all_objects(items: Seq<JsonView>) -> bool {
    forall|i: int| 0 <= i < items.len() ==> (#[trigger] items[i]) is Object
}

/// The objects of a list.
pub open spec fn rows_of(items: Seq<JsonView>) -> Seq<Fields> {
    items.map_values(|v: JsonView| v->Object_0)
}

/// The widest key of an object, in bytes.
pub open spec fn key_width(fields: Fields) -> int
    decreases fields.len(),
{
    if fields.len() == 0 {
        0
    } else {
        larger(key_width(fields.drop_last()), text::bytes(fields.last().0))
    }
}

/// One line for each field, with the keys padded to one width.
pub open spec fn entries_of(fields: Fields, width: int) -> Seq<char>
    decreases fields.len(),
{
    if fields.len() == 0 {
        Seq::empty()
    } else {
        entries_of(fields.drop_last(), width) + (padded(fields.last().0, width) + "  "@ + cell_of(
            Some(fields.last().1),
        ) + "\n"@)
    }
}

/// How an answer is shown: a list of objects as a table, an object as lines,
/// null as nothing, and any other value as compact JSON.
pub open spec fn shown(data: JsonView) -> Seq<char> {
    match data {
        JsonView::List(items) => if all_objects(items) {
            table_of(rows_of(items))
        } else {
            json::encoded(data) + "\n"@
        },
        JsonView::Object(fields) => entries_of(fields, key_width(fields)),
        JsonView::Null => Seq::empty(),
        _ => json::encoded(data) + "\n"@,
    }
}

fn has_text(list: &Vec<String>, s: &str) -> (r: bool)
    ensures
        r == text::views(list@).contains(s@),
{
    let ghost all = text::views(list@);
    let mut i: usize = 0;
    while i < list.len()
        invariant
            i <= list@.len(),
            all == text::views(list@),
            forall|j: int| 0 <= j < i ==> (#[trigger] all[j]) != s@,
        decreases list@.len() - i,
    {
        assert(all[i as int] == list@[i as int]@);
        if text::same(&list[i], s) {
            return true;
        }
        i += 1;
    }
    false
}

fn add_keys(columns: &mut Vec<String>, row: &Vec<(String, Json)>)
    ensures
        text::views(final(columns)@) == with_keys(
            text::views(old(columns)@),
            json::fields_view(row@),
        ),
{
    let ghost fields = json::fields_view(row@);
    let ghost start = text::views(columns@);
    let mut i: usize = 0;
    assert(fields.take(0) =~= Seq::empty());
    while i < row.len()
        invariant
            i <= row@.len(),
            fields == json::fields_view(row@),
            text::views(columns@) == with_keys(start, fields.take(i as int)),
        decreases row@.len() - i,
    {
        let ghost was = text::views(columns@);
        assert(fields.take(i + 1).drop_last() =~= fields.take(i as int));
        assert(fields.take(i + 1).last().0 == row@[i as int].0@);
        if !has_text(columns, &row[i].0) {
            columns.push(row[i].0.clone());
            assert(text::views(columns@) =~= was.push(row@[i as int].0@));
        }
        i += 1;
    }
    assert(fields.take(i as int) =~= fields);
}

fn fields_of(value: &Json) -> (r: &Vec<(String, Json)>)
    requires
        value is Object,
    ensures
        value@ == JsonView::Object(json::fields_view(r@)),
{
    match value {
        Json::Object(fields) => {
            proof {
                json::lemma_object_view(*fields);
            }
            fields
        },
        _ => vstd::pervasive::unreached(),
    }
}

fn push_row(out: &mut String, cells: &Vec<String>, widths: &Vec<usize>)
    requires
        cells@.len() == widths@.len(),
    ensures
        final(out)@ == old(out)@ + line_of(
            text::views(cells@),
            widths@.map_values(|w: usize| w as int),
        ),
{
    let ghost texts = text::views(cells@);
    let ghost wide = widths@.map_values(|w: usize| w as int);
    let mut line: Vec<String> = Vec::new();
    let mut i: usize = 0;
    while i < cells.len()
        invariant
            i <= cells@.len(),
            cells@.len() == widths@.len(),
            texts == text::views(cells@),
            wide == widths@.map_values(|w: usize| w as int),
            line@.len() == i,
            forall|j: int| 0 <= j < i ==> (#[trigger] line@[j])@ == padded(texts[j], wide[j]),
        decreases cells@.len() - i,
    {
        line.push(pad(&cells[i], widths[i]));
        i += 1;
    }
    assert(text::views(line@) =~= Seq::new(texts.len(), |j: int| padded(texts[j], wide[j])));
    let whole = text::join(&line, "  ");
    let ghost was = out@;
    let cut = text::trimmed_end(&whole);
    out.append(&cut);
    out.append("\n");
    assert(out@ =~= was + (cut@ + "\n"@));
}

fn column_width(rows: &Vec<Json>, column: &str) -> (r: usize)
    requires
        all_objects(json::items_view(rows@)),
    ensures
        r == width_of(rows_of(json::items_view(rows@)), column@),
{
    let ghost all = rows_of(json::items_view(rows@));
    let mut width: usize = text::byte_len(column);
    let mut i: usize = 0;
    assert(all.take(0) =~= Seq::empty());
    while i < rows.len()
        invariant
            i <= rows@.len(),
            all == rows_of(json::items_view(rows@)),
            all_objects(json::items_view(rows@)),
            width == width_of(all.take(i as int), column@),
        decreases rows@.len() - i,
    {
        assert(json::items_view(rows@)[i as int] == rows@[i as int]@);
        assert(all.take(i + 1).drop_last() =~= all.take(i as int));
        let fields = fields_of(&rows[i]);
        assert(all.take(i + 1).last() == json::fields_view(fields@));
        let n: usize = text::byte_len(&cell_text(json::field(fields, column)));
        if n > width {
            width = n;
        }
        i += 1;
    }
    assert(all.take(i as int) =~= all);
    width
}

fn row_cells(row: &Vec<(String, Json)>, columns: &Vec<String>) -> (r: Vec<String>)
    ensures
        text::views(r@) == cells_of(json::fields_view(row@), text::views(columns@)),
{
    let ghost fields = json::fields_view(row@);
    let mut out: Vec<String> = Vec::new();
    let mut i: usize = 0;
    while i < columns.len()
        invariant
            i <= columns@.len(),
            fields == json::fields_view(row@),
            out@.len() == i,
            forall|j: int|
                0 <= j < i ==> (#[trigger] out@[j])@ == cell_of(
                    json::lookup(fields, columns@[j]@),
                ),
        decreases columns@.len() - i,
    {
        out.push(cell_text(json::field(row, &columns[i])));
        i += 1;
    }
    assert(text::views(out@) =~= cells_of(fields, text::views(columns@)));
    out
}

fn render_table(rows: &Vec<Json>) -> (r: String)
    requires
        all_objects(json::items_view(rows@)),
    ensures
        r@ == table_of(rows_of(json::items_view(rows@))),
{
    let ghost all = rows_of(json::items_view(rows@));
    if rows.len() == 0 {
        return "(none)\n".to_owned();
    }
    let mut columns: Vec<String> = Vec::new();
    let mut i: usize = 0;
    assert(all.take(0) =~= Seq::empty());
    assert(text::views(columns@) =~= Seq::empty());
    while i < rows.len()
        invariant
            i <= rows@.len(),
            all == rows_of(json::items_view(rows@)),
            all_objects(json::items_view(rows@)),
            text::views(columns@) == columns_of(all.take(i as int)),
        decreases rows@.len() - i,
    {
        assert(json::items_view(rows@)[i as int] == rows@[i as int]@);
        assert(all.take(i + 1).drop_last() =~= all.take(i as int));
        let fields = fields_of(&rows[i]);
        assert(all.take(i + 1).last() == json::fields_view(fields@));
        add_keys(&mut columns, fields);
        i += 1;
    }
    assert(all.take(i as int) =~= all);
    let ghost heads = text::views(columns@);
    let mut widths: Vec<usize> = Vec::new();
    let mut k: usize = 0;
    while k < columns.len()
        invariant
            k <= columns@.len(),
            all == rows_of(json::items_view(rows@)),
            all_objects(json::items_view(rows@)),
            widths@.len() == k,
            forall|j: int| 0 <= j < k ==> (#[trigger] widths@[j]) == width_of(all, columns@[j]@),
        decreases columns@.len() - k,
    {
        widths.push(column_width(rows, &columns[k]));
        k += 1;
    }
    let ghost wide = widths@.map_values(|w: usize| w as int);
    assert(wide =~= widths_of(all, heads));
    let mut out = String::new();
    assert(out@ =~= Seq::empty());
    push_row(&mut out, &columns, &widths);
    let ghost head = line_of(heads, wide);
    assert(out@ =~= head + lines_of(Seq::empty(), heads, wide));
    let mut n: usize = 0;
    assert(all.take(0) =~= Seq::empty());
    while n < rows.len()
        invariant
            n <= rows@.len(),
            all == rows_of(json::items_view(rows@)),
            all_objects(json::items_view(rows@)),
            heads == text::views(columns@),
            columns@.len() == widths@.len(),
            wide == widths@.map_values(|w: usize| w as int),
            out@ == head + lines_of(all.take(n as int), heads, wide),
        decreases rows@.len() - n,
    {
        assert(json::items_view(rows@)[n as int] == rows@[n as int]@);
        assert(all.take(n + 1).drop_last() =~= all.take(n as int));
        let fields = fields_of(&rows[n]);
        assert(all.take(n + 1).last() == json::fields_view(fields@));
        let cells = row_cells(fields, &columns);
        assert(cells@.len() == text::views(cells@).len());
        push_row(&mut out, &cells, &widths);
        assert(out@ =~= head + lines_of(all.take(n + 1), heads, wide));
        n += 1;
    }
    assert(all.take(n as int) =~= all);
    out
}

fn render_object(fields: &Vec<(String, Json)>) -> (r: String)
    ensures
        r@ == entries_of(json::fields_view(fields@), key_width(json::fields_view(fields@))),
{
    let ghost all = json::fields_view(fields@);
    let mut width: usize = 0;
    let mut i: usize = 0;
    assert(all.take(0) =~= Seq::empty());
    while i < fields.len()
        invariant
            i <= fields@.len(),
            all == json::fields_view(fields@),
            width == key_width(all.take(i as int)),
        decreases fields@.len() - i,
    {
        assert(all.take(i + 1).drop_last() =~= all.take(i as int));
        assert(all.take(i + 1).last().0 == fields@[i as int].0@);
        let n: usize = text::byte_len(&fields[i].0);
        if n > width {
            width = n;
        }
        i += 1;
    }
    assert(all.take(i as int) =~= all);
    let mut out = String::new();
    let mut k: usize = 0;
    assert(out@ =~= Seq::empty());
    while k < fields.len()
        invariant
            k <= fields@.len(),
            all == json::fields_view(fields@),
            out@ == entries_of(all.take(k as int), width as int),
        decreases fields@.len() - k,
    {
        let ghost was = out@;
        assert(all.take(k + 1).drop_last() =~= all.take(k as int));
        assert(all.take(k + 1).last() == (fields@[k as int].0@, fields@[k as int].1@));
        let key = pad(&fields[k].0, width);
        let cell = cell_text(Some(&fields[k].1));
        out.append(&key);
        out.append("  ");
        out.append(&cell);
        out.append("\n");
        assert(out@ =~= was + (key@ + "  "@ + cell@ + "\n"@));
        k += 1;
    }
    assert(all.take(k as int) =~= all);
    out
}

fn only_objects(items: &Vec<Json>) -> (r: bool)
    ensures
        r == all_objects(json::items_view(items@)),
{
    let ghost all = json::items_view(items@);
    let mut i: usize = 0;
    while i < items.len()
        invariant
            i <= items@.len(),
            all == json::items_view(items@),
            forall|j: int| 0 <= j < i ==> (#[trigger] all[j]) is Object,
        decreases items@.len() - i,
    {
        assert(all[i as int] == items@[i as int]@);
        match &items[i] {
            Json::Object(_) => {},
            _ => {
                return false;
            },
        }
        i += 1;
    }
    true
}

/// How an answer is shown.
pub fn render(data: &Json) -> (r: String)
    ensures
        r@ == shown(data@),
{
    match data {
        Json::List(items) => {
            proof {
                json::lemma_list_view(*items);
            }
            if only_objects(items) {
                return render_table(items);
            }
        },
        Json::Object(fields) => {
            proof {
                json::lemma_object_view(*fields);
            }
            return render_object(fields);
        },
        Json::Null => {
            let none = String::new();
            assert(none@ =~= Seq::empty());
            return none;
        },
        _ => {},
    }
    text::concat2(&data.encode(), "\n")
}

/// What a response comes to: the text to print, or the text of the failure.
pub open spec fn outcome_of(response: ResponseView) -> Result<Seq<char>, Seq<char>> {
    if response.ok {
        Ok(
            shown(
                match response.data {
                    Some(data) => data,
                    None => JsonView::Null,
                },
            ),
        )
    } else {
        Err(response.error->0.code.text() + ": "@ + response.error->0.message)
    }
}

/// What a response comes to. A response without success carries an error.
pub fn report(response: &ResponseFrame) -> (r: Result<String, CliError>)
    requires
        response.ok || response.error is Some,
    ensures
        match r {
            Ok(text) => outcome_of(response@) == Ok::<Seq<char>, Seq<char>>(text@),
            Err(e) => outcome_of(response@) == Err::<Seq<char>, Seq<char>>(e.message_text()),
        },
{
    if response.ok {
        match &response.data {
            Some(data) => Ok(render(data)),
            None => Ok(render(&Json::Null)),
        }
    } else {
        match &response.error {
            Some(error) => Err(
                CliError::Failed(text::concat3(error.code.as_str(), ": ", &error.message)),
            ),
            None => vstd::pervasive::unreached(),
        }
    }
}

// ---------------------------------------------------------------------------
// Laws

/// The command is named by the first two words, whatever follows them.
pub proof fn command_is_resource_and_verb(words: Seq<Seq<char>>)
    ensures
        command_of(words) matches Some((command, _)) ==> words.len() >= 2 && command == words[0]
            + "-"@ + words[1],
        words.len() < 2 ==> command_of(words) is None,
{
}

/// A value without a flag is refused.
pub proof fn stray_words_are_refused(words: Seq<Seq<char>>)
    requires
        words.len() > 2,
        !is_flag(words[2]),
    ensures
        command_of(words) is None,
{
}

proof fn lemma_with_keys(columns: Seq<Seq<char>>, row: Fields)
    requires
        columns.no_duplicates(),
    ensures
        with_keys(columns, row).no_duplicates(),
        forall|c: Seq<char>|
            #[trigger] with_keys(columns, row).contains(c) <==> columns.contains(c) || exists|
                i: int,
            |
                0 <= i < row.len() && (#[trigger] row[i]).0 == c,
    decreases row.len(),
{
    if row.len() > 0 {
        let init = row.drop_last();
        let before = with_keys(columns, init);
        lemma_with_keys(columns, init);
        let now = with_keys(columns, row);
        assert forall|c: Seq<char>| #[trigger] now.contains(c) <==> columns.contains(c) || exists|
            i: int,
        |
            0 <= i < row.len() && (#[trigger] row[i]).0 == c by {
            if now.contains(c) {
                let k = choose|k: int| 0 <= k < now.len() && now[k] == c;
                if k < before.len() && before[k] == c {
                    assert(before.contains(c));
                    if !columns.contains(c) {
                        let i = choose|i: int| 0 <= i < init.len() && (#[trigger] init[i]).0 == c;
                        assert(row[i].0 == c);
                    }
                } else {
                    assert(row[row.len() - 1].0 == c);
                }
            }
            if columns.contains(c) {
                assert(before.contains(c));
                let k = choose|k: int| 0 <= k < before.len() && before[k] == c;
                assert(now[k] == c);
            } else if exists|i: int| 0 <= i < row.len() && (#[trigger] row[i]).0 == c {
                let i = choose|i: int| 0 <= i < row.len() && (#[trigger] row[i]).0 == c;
                if i < init.len() {
                    assert(init[i].0 == c);
                    assert(before.contains(c));
                    let k = choose|k: int| 0 <= k < before.len() && before[k] == c;
                    assert(now[k] == c);
                } else if before.contains(c) {
                    let k = choose|k: int| 0 <= k < before.len() && before[k] == c;
                    assert(now[k] == c);
                } else {
                    assert(now[before.len() as int] == c);
                }
            }
        }
    }
}

/// A table has a column for every key of every row, no other, and none twice.
pub proof fn columns_are_the_keys(rows: Seq<Fields>)
    ensures
        columns_of(rows).no_duplicates(),
        forall|c: Seq<char>|
            #[trigger] columns_of(rows).contains(c) <==> exists|i: int, j: int|
                0 <= i < rows.len() && 0 <= j < rows[i].len() && (#[trigger] rows[i][j]).0 == c,
    decreases rows.len(),
{
    if rows.len() > 0 {
        let init = rows.drop_last();
        columns_are_the_keys(init);
        lemma_with_keys(columns_of(init), rows.last());
        assert forall|c: Seq<char>| #[trigger] columns_of(rows).contains(c) <==> exists|
            i: int,
            j: int,
        |
            0 <= i < rows.len() && 0 <= j < rows[i].len() && (#[trigger] rows[i][j]).0 == c by {
            if columns_of(rows).contains(c) {
                if columns_of(init).contains(c) {
                    let (i, j) = choose|i: int, j: int|
                        0 <= i < init.len() && 0 <= j < init[i].len() && (
                        #[trigger] init[i][j]).0 == c;
                    assert(rows[i][j].0 == c);
                } else {
                    let j = choose|j: int|
                        0 <= j < rows.last().len() && (#[trigger] rows.last()[j]).0 == c;
                    assert(rows[rows.len() - 1][j].0 == c);
                }
            }
            if exists|i: int, j: int|
                0 <= i < rows.len() && 0 <= j < rows[i].len() && (#[trigger] rows[i][j]).0 == c {
                let (i, j) = choose|i: int, j: int|
                    0 <= i < rows.len() && 0 <= j < rows[i].len() && (#[trigger] rows[i][j]).0
                        == c;
                if i < init.len() {
                    assert(init[i][j].0 == c);
                } else {
                    assert(rows.last()[j].0 == c);
                }
            }
        }
    }
}

proof fn lemma_width_covers(rows: Seq<Fields>, column: Seq<char>, i: int)
    requires
        0 <= i < rows.len(),
    ensures
        text::bytes(cell_of(json::lookup(rows[i], column))) <= width_of(rows, column),
        text::bytes(column) <= width_of(rows, column),
    decreases rows.len(),
{
    let init = rows.drop_last();
    if i < init.len() {
        lemma_width_covers(init, column, i);
        assert(init[i] == rows[i]);
    } else if init.len() > 0 {
        lemma_width_covers(init, column, 0);
    } else {
        assert(width_of(init, column) == text::bytes(column));
    }
}

/// A column is as wide as its head and as each of its cells.
pub proof fn columns_hold_their_cells(rows: Seq<Fields>, column: Seq<char>)
    requires
        rows.len() > 0,
    ensures
        text::bytes(column) <= width_of(rows, column),
        forall|i: int|
            0 <= i < rows.len() ==> text::bytes(cell_of(json::lookup(#[trigger] rows[i], column)))
                <= width_of(rows, column),
{
    lemma_width_covers(rows, column, 0);
    assert forall|i: int| 0 <= i < rows.len() implies text::bytes(
        cell_of(json::lookup(#[trigger] rows[i], column)),
    ) <= width_of(rows, column) by {
        lemma_width_covers(rows, column, i);
    }
}

/// One flag more, with its value behind an equals sign, or a flag and its value, or
/// a flag alone, adds an argument and leaves the others as they were.
pub proof fn further_flags_are_read(
    words: Seq<Seq<char>>,
    command: Seq<char>,
    given: Fields,
    key: Seq<char>,
    value: Seq<char>,
    asked: Seq<char>,
)
    requires
        command_of(words) == Some((command, given)),
        !text::within(key, "="@),
    ensures
        command_of(words.push("--"@ + key + "="@ + value)) matches Some((same, args)) && same
            == command && json::lookup(args, key) == Some(JsonView::Text(value)) && (asked != key
            ==> json::lookup(args, asked) == json::lookup(given, asked)),
        !is_flag(value) ==> (command_of(words.push("--"@ + key).push(value)) matches Some(
            (same, args),
        ) && same == command && json::lookup(args, key) == Some(JsonView::Text(value)) && (asked
            != key ==> json::lookup(args, asked) == json::lookup(given, asked))),
        command_of(words.push("--"@ + key)) matches Some((same, args)) && same == command
            && json::lookup(args, key) == Some(JsonView::Bool(true)) && (asked != key
            ==> json::lookup(args, asked) == json::lookup(given, asked)),
{
    reveal_with_fuel(flags_of, 3);
    reveal_strlit("--");
    reveal_strlit("=");
    let none: Fields = Seq::empty();
    let n = words.len() as int;
    let full = "--"@ + key + "="@ + value;
    let bare = "--"@ + key;
    assert(full.subrange(0, 2) =~= "--"@);
    assert(bare.subrange(0, 2) =~= "--"@);
    assert(is_flag(full) && is_flag(bare));
    assert(full.skip(2) =~= key + "="@ + value);
    assert(bare.skip(2) =~= key);
    lemma_key_cut(key, value);
    lemma_flags_go_on(words, full, 2, none);
    lemma_flags_go_on(words, bare, 2, none);
    json::putting_sets_one_key(given, key, JsonView::Text(value), key);
    json::putting_sets_one_key(given, key, JsonView::Text(value), asked);
    json::putting_sets_one_key(given, key, JsonView::Bool(true), key);
    json::putting_sets_one_key(given, key, JsonView::Bool(true), asked);
    let longer = words.push(bare).push(value);
    assert(longer.take(n) =~= words);
    lemma_flags_reach(words, longer, 2, none);
    assert(longer[n] == bare && longer[n + 1] == value);
    assert(words.push(full)[n] == full && words.push(bare)[n] == bare);
    assert(words.push(full)[0] == words[0] && words.push(full)[1] == words[1]);
    assert(words.push(bare)[0] == words[0] && words.push(bare)[1] == words[1]);
    assert(longer[0] == words[0] && longer[1] == words[1]);
}

proof fn lemma_key_cut(key: Seq<char>, value: Seq<char>)
    requires
        !text::within(key, "="@),
    ensures
        text::cut(key + "="@ + value, "="@) == Some((key, value)),
        text::cut(key, "="@) is None,
{
    reveal_strlit("=");
    let whole = key + "="@ + value;
    let n = key.len() as int;
    assert(whole.subrange(n, n + 1) =~= "="@);
    assert forall|j: int| 0 <= j < n implies !text::at(whole, "="@, j) by {
        if text::at(whole, "="@, j) {
            assert(whole.subrange(j, j + 1)[0] == '=');
            assert(key.subrange(j, j + 1) =~= "="@);
            assert(text::at(key, "="@, j));
        }
    }
    text::lemma_cut_at(whole, "="@, n);
    assert(whole.take(n) =~= key);
    assert(whole.skip(n + 1) =~= value);
    text::lemma_cut_parts(key, "="@);
    if text::cut(key, "="@) is Some {
        let (front, back) = text::cut(key, "="@)->0;
        text::parts_stand_in_the_whole(key, front, "="@, back);
    }
}

/// What was read before a flag is not changed by what follows it.
proof fn lemma_flags_reach(words: Seq<Seq<char>>, longer: Seq<Seq<char>>, from: int, args: Fields)
    requires
        0 <= from <= words.len(),
        words.len() < longer.len(),
        longer.take(words.len() as int) == words,
        is_flag(longer[words.len() as int]),
        flags_of(words, from, args) is Some,
    ensures
        flags_of(longer, from, args) == flags_of(
            longer,
            words.len() as int,
            flags_of(words, from, args)->0,
        ),
    decreases words.len() - from,
{
    let n = words.len() as int;
    if from < n {
        assert(longer.take(n)[from] == longer[from]);
        let flag = words[from].skip(2);
        match text::cut(flag, "="@) {
            Some((key, value)) => {
                lemma_flags_reach(
                    words,
                    longer,
                    from + 1,
                    json::put(args, key, JsonView::Text(value)),
                );
            },
            None => {
                if from + 1 < n {
                    assert(longer.take(n)[from + 1] == longer[from + 1]);
                }
                if from + 1 < n && !is_flag(words[from + 1]) {
                    lemma_flags_reach(
                        words,
                        longer,
                        from + 2,
                        json::put(args, flag, JsonView::Text(words[from + 1])),
                    );
                } else {
                    lemma_flags_reach(
                        words,
                        longer,
                        from + 1,
                        json::put(args, flag, JsonView::Bool(true)),
                    );
                }
            },
        }
    }
}

proof fn lemma_flags_go_on(words: Seq<Seq<char>>, word: Seq<char>, from: int, args: Fields)
    requires
        0 <= from <= words.len(),
        is_flag(word),
        flags_of(words, from, args) is Some,
    ensures
        flags_of(words.push(word), from, args) == flags_of(
            words.push(word),
            words.len() as int,
            flags_of(words, from, args)->0,
        ),
{
    assert(words.push(word).take(words.len() as int) =~= words);
    lemma_flags_reach(words, words.push(word), from, args);
}

/// An object is shown field by field, each on a line of its own with its key and its
/// value.
pub proof fn objects_are_shown_field_by_field(fields: Fields, i: int)
    requires
        0 <= i < fields.len(),
    ensures
        text::within(shown(JsonView::Object(fields)), fields[i].0),
        text::within(shown(JsonView::Object(fields)), cell_of(Some(fields[i].1))),
{
    lemma_entry_shown(fields, key_width(fields), i);
}

proof fn lemma_entry_shown(fields: Fields, width: int, i: int)
    requires
        0 <= i < fields.len(),
    ensures
        text::within(entries_of(fields, width), fields[i].0),
        text::within(entries_of(fields, width), cell_of(Some(fields[i].1))),
    decreases fields.len(),
{
    let before = entries_of(fields.drop_last(), width);
    let (key, value) = fields.last();
    let cell = cell_of(Some(value));
    let gap = spaces(width - key.len());
    let line = padded(key, width) + "  "@ + cell + "\n"@;
    let whole = entries_of(fields, width);
    if i == fields.len() - 1 {
        assert(whole =~= before + key + (gap + "  "@ + cell + "\n"@));
        text::parts_stand_in_the_whole(whole, before, key, gap + "  "@ + cell + "\n"@);
        assert(whole =~= (before + key + gap + "  "@) + cell + "\n"@);
        text::parts_stand_in_the_whole(whole, before + key + gap + "  "@, cell, "\n"@);
    } else {
        lemma_entry_shown(fields.drop_last(), width, i);
        assert(whole =~= seq![] + before + line);
        text::parts_stand_in_the_whole(whole, seq![], before, line);
        text::what_a_part_holds_the_whole_holds(whole, before, fields[i].0);
        text::what_a_part_holds_the_whole_holds(whole, before, cell_of(Some(fields[i].1)));
    }
}

/// A value is shown as a text where it is one, as a dash where there is none, and
/// otherwise as it is encoded.
pub proof fn cells_show_their_value(s: Seq<char>, n: Seq<char>, b: bool)
    ensures
        cell_of(Some(JsonView::Text(s))) == s,
        cell_of(None) == "-"@,
        cell_of(Some(JsonView::Null)) == "-"@,
        cell_of(Some(JsonView::Number(n))) == json::encoded(JsonView::Number(n)),
        cell_of(Some(JsonView::Bool(b))) == json::encoded(JsonView::Bool(b)),
{
}

/// One row more adds a line to those of the others, and a line holds its cells in
/// order, each padded to its column, without the white space at its end.
pub proof fn tables_have_a_line_for_each_row(
    rows: Seq<Fields>,
    row: Fields,
    columns: Seq<Seq<char>>,
    widths: Seq<int>,
)
    ensures
        lines_of(rows.push(row), columns, widths) == lines_of(rows, columns, widths) + line_of(
            cells_of(row, columns),
            widths,
        ),
        lines_of(seq![], columns, widths).len() == 0,
        rows.len() > 0 ==> (exists|names: Seq<Seq<char>>, sizes: Seq<int>|
            table_of(rows) == line_of(names, sizes) + #[trigger] lines_of(rows, names, sizes)
                && names == columns_of(rows)),
{
    assert(rows.push(row).drop_last() =~= rows);
    let names = columns_of(rows);
    let sizes = widths_of(rows, names);
    if rows.len() > 0 {
        assert(table_of(rows) == line_of(names, sizes) + lines_of(rows, names, sizes));
    }
}

/// Every cell of every row stands in the table, but for white space at its end.
pub proof fn tables_hold_every_cell(rows: Seq<Fields>, i: int, j: int)
    requires
        0 <= i < rows.len(),
        0 <= j < columns_of(rows).len(),
    ensures
        text::within(
            table_of(rows),
            text::trim_end(cell_of(json::lookup(rows[i], columns_of(rows)[j]))),
        ),
        text::within(table_of(rows), text::trim_end(columns_of(rows)[j])),
{
    let columns = columns_of(rows);
    let widths = widths_of(rows, columns);
    let head = line_of(columns, widths);
    let body = lines_of(rows, columns, widths);
    let table = table_of(rows);
    assert(table =~= seq![] + head + body);
    text::parts_stand_in_the_whole(table, seq![], head, body);
    assert(table =~= head + body + seq![]);
    text::parts_stand_in_the_whole(table, head, body, seq![]);
    lemma_cell_in_line(columns, widths, j);
    text::what_a_part_holds_the_whole_holds(table, head, text::trim_end(columns[j]));
    let cell = text::trim_end(cell_of(json::lookup(rows[i], columns[j])));
    lemma_cell_in_lines(rows, columns, widths, i, j);
    text::what_a_part_holds_the_whole_holds(table, body, cell);
}

proof fn lemma_cell_in_lines(
    rows: Seq<Fields>,
    columns: Seq<Seq<char>>,
    widths: Seq<int>,
    i: int,
    j: int,
)
    requires
        0 <= i < rows.len(),
        0 <= j < columns.len(),
        columns.len() == widths.len(),
    ensures
        text::within(
            lines_of(rows, columns, widths),
            text::trim_end(cell_of(json::lookup(rows[i], columns[j]))),
        ),
    decreases rows.len(),
{
    let whole = lines_of(rows, columns, widths);
    let before = lines_of(rows.drop_last(), columns, widths);
    let cells = cells_of(rows.last(), columns);
    let line = line_of(cells, widths);
    let cell = text::trim_end(cell_of(json::lookup(rows[i], columns[j])));
    if i == rows.len() - 1 {
        assert(cells[j] == cell_of(json::lookup(rows[i], columns[j])));
        lemma_cell_in_line(cells, widths, j);
        assert(whole =~= before + line + seq![]);
        text::parts_stand_in_the_whole(whole, before, line, seq![]);
        text::what_a_part_holds_the_whole_holds(whole, line, cell);
    } else {
        lemma_cell_in_lines(rows.drop_last(), columns, widths, i, j);
        assert(whole =~= seq![] + before + line);
        text::parts_stand_in_the_whole(whole, seq![], before, line);
        text::what_a_part_holds_the_whole_holds(whole, before, cell);
    }
}

/// How far a text reaches without the white space at its end.
proof fn lemma_end_of(s: Seq<char>) -> (n: int)
    ensures
        0 <= n <= s.len(),
        text::trim_end(s) == s.take(n),
        n > 0 ==> !text::white(s[n - 1]),
        forall|k: int| n <= k < s.len() ==> text::white(#[trigger] s[k]),
    decreases s.len(),
{
    if s.len() > 0 && text::white(s.last()) {
        let n = lemma_end_of(s.drop_last());
        assert forall|k: int| n <= k < s.len() implies text::white(#[trigger] s[k]) by {
            if k < s.len() - 1 {
                assert(s.drop_last()[k] == s[k]);
            }
        }
        if n > 0 {
            assert(s.drop_last()[n - 1] == s[n - 1]);
        }
        text::lemma_trim_end_at(s, n);
        n
    } else {
        text::lemma_trim_end_at(s, s.len() as int);
        s.len() as int
    }
}

proof fn lemma_cell_in_line(cells: Seq<Seq<char>>, widths: Seq<int>, j: int)
    requires
        0 <= j < cells.len(),
    ensures
        text::within(line_of(cells, widths), text::trim_end(cells[j])),
{
    let parts = Seq::new(cells.len(), |i: int| padded(cells[i], widths[i]));
    let whole = text::joined(parts, "  "@);
    text::every_part_is_joined(parts, "  "@, j);
    let at = choose|at: int| text::at(whole, parts[j], at);
    let n = lemma_end_of(cells[j]);
    let end = lemma_end_of(whole);
    let cell = text::trim_end(cells[j]);
    let line = line_of(cells, widths);
    assert(parts[j] == cells[j] + spaces(widths[j] - cells[j].len()));
    if n > 0 {
        assert(whole.subrange(at, at + parts[j].len())[n - 1] == parts[j][n - 1]);
        assert(parts[j][n - 1] == cells[j][n - 1]);
        assert(whole[at + n - 1] == cells[j][n - 1]);
        assert(end >= at + n);
        assert forall|k: int| 0 <= k < n implies #[trigger] line.subrange(at, at + n)[k]
            == cell[k] by {
            assert(whole.subrange(at, at + parts[j].len())[k] == parts[j][k]);
        }
        assert(line.subrange(at, at + n) =~= cell);
        assert(text::at(line, cell, at));
    } else {
        assert(line.subrange(0, 0) =~= cell);
        assert(text::at(line, cell, 0));
    }
}

/// What went well is shown, and what did not is told with its kind and its message.
pub proof fn answers_are_shown_or_told(response: ResponseView)
    ensures
        response.ok && response.data is Some ==> outcome_of(response) == Ok::<Seq<char>, Seq<char>>(
            shown(response.data->0),
        ),
        response.ok && response.data is None ==> (outcome_of(response) matches Ok(nothing)
            && nothing.len() == 0),
        !response.ok && response.error is Some ==> (outcome_of(response) matches Err(told)
            && told == response.error->0.code.text() + ": "@ + response.error->0.message),
{
}

/// A cell is filled up with spaces to its width, and one that is wider stays as it is.
pub proof fn cells_are_filled_up(s: Seq<char>, width: int, i: int)
    ensures
        s.len() <= width ==> padded(s, width).len() == width,
        s.len() > width ==> padded(s, width) == s,
        padded(s, width).take(s.len() as int) == s,
        s.len() <= i < width ==> padded(s, width)[i] == ' ',
{
    assert(padded(s, width).take(s.len() as int) =~= s);
    if s.len() > width {
        assert(padded(s, width) =~= s);
    }
}

} // verus!
