//! What goes over a session's pipes: one JSON object on each line.

use vstd::prelude::*;

use crate::encoding::{
    base64_bytes, base64_of, encoded_bytes_are_read_back, encodings_are_plain,
};
use crate::mouse::Scroll;
use crate::outside::{
    base64_encode, before, encodable, field_list, field_text, in_name_order, insert_number,
    insert_text, json_object, json_text, lists_members, members, object_text, plain, quoted,
};
use crate::text::{decimal, number_of, written_numbers_are_read_back};

verus! {

/// One message from the remote.
#[derive(Debug, Clone)]
pub struct Frame {
    pub kind: String,
    pub seq: Option<u64>,
    /// the frame replaces the whole screen
    pub full: Option<bool>,
    pub width: Option<usize>,
    pub height: Option<usize>,
    /// terminal output, in base64
    pub bytes: Option<String>,
    pub reason: Option<String>,
}

/// The line that carries an object with these fields.
pub open spec fn line_of(fields: Seq<(Seq<char>, Seq<char>)>) -> Seq<char> {
    object_text(fields).push('\n')
}

/// The fields of a message that carries input, in base64.
pub open spec fn input_fields(encoded: Seq<char>) -> Seq<(Seq<char>, Seq<char>)> {
    seq![("bytes"@, quoted(encoded)), ("type"@, quoted("terminal.input"@))]
}

/// The line that sends `bytes` as input.
pub open spec fn input_line_of(bytes: Seq<u8>) -> Seq<char> {
    line_of(input_fields(base64_of(bytes)))
}

/// The fields of a message that asks for a semantic scroll, at a place counted
/// from zero.
pub open spec fn scroll_fields(scroll: Scroll) -> Seq<(Seq<char>, Seq<char>)> {
    let direction = if scroll.up {
        "up"@
    } else {
        "down"@
    };
    seq![
        ("column"@, decimal(from_zero(scroll.x))),
        ("direction"@, quoted(direction)),
        ("lines"@, decimal(3)),
        ("modifiers"@, decimal(0)),
        ("row"@, decimal(from_zero(scroll.y))),
        ("source"@, quoted("wheel"@)),
        ("type"@, quoted("terminal.scroll"@)),
    ]
}

/// A place that is counted from one, counted from zero. There is none below the
/// first.
pub open spec fn from_zero(n: u32) -> nat {
    if n == 0 {
        0
    } else {
        (n - 1) as nat
    }
}

/// The line that asks for a semantic scroll.
pub open spec fn scroll_line_of(scroll: Scroll) -> Seq<char> {
    line_of(scroll_fields(scroll))
}

/// The fields of a message that gives the remote terminal a size.
pub open spec fn resize_fields(cols: nat, rows: nat) -> Seq<(Seq<char>, Seq<char>)> {
    seq![("cols"@, decimal(cols)), ("rows"@, decimal(rows)), ("type"@, quoted("terminal.resize"@))]
}

/// The line that gives the remote terminal a size.
pub open spec fn resize_line_of(cols: nat, rows: nat) -> Seq<char> {
    line_of(resize_fields(cols, rows))
}

/// The fields of the message that gives control back.
pub open spec fn release_fields() -> Seq<(Seq<char>, Seq<char>)> {
    seq![("type"@, quoted("terminal.release"@))]
}

/// The line that gives control back.
pub open spec fn release_line_of() -> Seq<char> {
    line_of(release_fields())
}

// ---------------------------------------------------------------------------
// writing

/// Names with ascending first characters stand in ascending order.
proof fn ordered_by_first(fields: Seq<(Seq<char>, Seq<char>)>)
    requires
        forall|i: int| 0 <= i < fields.len() ==> (#[trigger] fields[i]).0.len() > 0,
        forall|i: int, j: int|
            0 <= i < j < fields.len() ==> (#[trigger] fields[i]).0[0] < (#[trigger] fields[j]).0[0],
    ensures
        in_name_order(fields),
{
    assert forall|i: int, j: int| 0 <= i < j < fields.len() implies before(
        #[trigger] fields[i].0,
        #[trigger] fields[j].0,
    ) by {
        let (a, b) = (fields[i].0, fields[j].0);
        assert(a.take(0) =~= b.take(0));
    }
}

/// None of the names and fixed values needs escaping.
proof fn fixed_texts_are_plain()
    ensures
        plain("bytes"@),
        plain("type"@),
        plain("column"@),
        plain("direction"@),
        plain("lines"@),
        plain("modifiers"@),
        plain("row"@),
        plain("source"@),
        plain("cols"@),
        plain("rows"@),
        plain("terminal.input"@),
        plain("terminal.scroll"@),
        plain("terminal.resize"@),
        plain("terminal.release"@),
        plain("up"@),
        plain("down"@),
        plain("wheel"@),
{
    reveal_strlit("bytes");
    reveal_strlit("type");
    reveal_strlit("column");
    reveal_strlit("direction");
    reveal_strlit("lines");
    reveal_strlit("modifiers");
    reveal_strlit("row");
    reveal_strlit("source");
    reveal_strlit("cols");
    reveal_strlit("rows");
    reveal_strlit("terminal.input");
    reveal_strlit("terminal.scroll");
    reveal_strlit("terminal.resize");
    reveal_strlit("terminal.release");
    reveal_strlit("up");
    reveal_strlit("down");
    reveal_strlit("wheel");
}

/// An encoding needs no escaping.
proof fn encoded_text_is_plain(bytes: Seq<u8>)
    ensures
        plain(base64_of(bytes)),
{
    let s = base64_of(bytes);
    assert forall|i: int| 0 <= i < s.len() implies #[trigger] s[i] >= ' ' && s[i] != '"' && s[i]
        != '\\' by {
        encodings_are_plain(bytes, i);
    }
}

/// The line that sends input which is already in base64.
pub fn input_message(encoded: &str) -> (line: String)
    requires
        plain(encoded@),
    ensures
        line@ == line_of(input_fields(encoded@)),
{
    proof {
        fixed_texts_are_plain();
        reveal_strlit("bytes");
        reveal_strlit("type");
    }
    let mut m = json_object();
    insert_text(&mut m, "bytes", encoded);
    insert_text(&mut m, "type", "terminal.input");
    proof {
        let fields = input_fields(encoded@);
        ordered_by_first(fields);
        assert("bytes"@[0] != "type"@[0]);
        assert(members(m)["bytes"@] == fields[0].1);
        assert(fields[0].0 == "bytes"@ && fields[1].0 == "type"@);
        assert(lists_members(fields, members(m)));
        assert(object_text(fields) == object_text(fields));
    }
    let mut line = json_text(m);
    line.push('\n');
    line
}

/// The line that sends `bytes` as input.
pub fn input_line(bytes: &[u8]) -> (line: String)
    requires
        encodable(bytes@.len()),
    ensures
        line@ == input_line_of(bytes@),
{
    let encoded = base64_encode(bytes);
    proof {
        encoded_text_is_plain(bytes@);
    }
    input_message(encoded.as_str())
}

/// The line that asks for a semantic scroll.
pub fn scroll_line(scroll: &Scroll) -> (line: String)
    ensures
        line@ == scroll_line_of(*scroll),
{
    proof {
        fixed_texts_are_plain();
        reveal_strlit("column");
        reveal_strlit("direction");
        reveal_strlit("lines");
        reveal_strlit("modifiers");
        reveal_strlit("row");
        reveal_strlit("source");
        reveal_strlit("type");
    }
    let direction = if scroll.up {
        "up"
    } else {
        "down"
    };
    let column = scroll.x.saturating_sub(1);
    let row = scroll.y.saturating_sub(1);
    let mut m = json_object();
    insert_number(&mut m, "column", column as u64);
    insert_text(&mut m, "direction", direction);
    insert_number(&mut m, "lines", 3);
    insert_number(&mut m, "modifiers", 0);
    insert_number(&mut m, "row", row as u64);
    insert_text(&mut m, "source", "wheel");
    insert_text(&mut m, "type", "terminal.scroll");
    proof {
        let fields = scroll_fields(*scroll);
        assert(fields.len() == 7);
        assert(fields[0].0 == "column"@);
        assert(fields[1].0 == "direction"@);
        assert(fields[2].0 == "lines"@);
        assert(fields[3].0 == "modifiers"@);
        assert(fields[4].0 == "row"@);
        assert(fields[5].0 == "source"@);
        assert(fields[6].0 == "type"@);
        assert("column"@[0] == 'c' && "direction"@[0] == 'd' && "lines"@[0] == 'l'
            && "modifiers"@[0] == 'm' && "row"@[0] == 'r' && "source"@[0] == 's' && "type"@[0]
            == 't');
        ordered_by_first(fields);
        assert(lists_members(fields, members(m)));
        assert(object_text(fields) == object_text(fields));
    }
    let mut line = json_text(m);
    line.push('\n');
    line
}

/// The line that gives the remote terminal a size.
pub fn resize_line(cols: usize, rows: usize) -> (line: String)
    ensures
        line@ == resize_line_of(cols as nat, rows as nat),
{
    proof {
        fixed_texts_are_plain();
        reveal_strlit("cols");
        reveal_strlit("rows");
        reveal_strlit("type");
    }
    let mut m = json_object();
    insert_number(&mut m, "cols", cols as u64);
    insert_number(&mut m, "rows", rows as u64);
    insert_text(&mut m, "type", "terminal.resize");
    proof {
        let fields = resize_fields(cols as nat, rows as nat);
        assert(fields.len() == 3);
        assert(fields[0].0 == "cols"@);
        assert(fields[1].0 == "rows"@);
        assert(fields[2].0 == "type"@);
        assert("cols"@[0] == 'c' && "rows"@[0] == 'r' && "type"@[0] == 't');
        ordered_by_first(fields);
        assert(lists_members(fields, members(m)));
        assert(object_text(fields) == object_text(fields));
    }
    let mut line = json_text(m);
    line.push('\n');
    line
}

/// The line that gives control back.
pub fn release_line() -> (line: String)
    ensures
        line@ == release_line_of(),
{
    proof {
        fixed_texts_are_plain();
    }
    let mut m = json_object();
    insert_text(&mut m, "type", "terminal.release");
    proof {
        let fields = release_fields();
        assert(fields[0].0 == "type"@);
        assert(in_name_order(fields));
        assert(lists_members(fields, members(m)));
        assert(object_text(fields) == object_text(fields));
    }
    let mut line = json_text(m);
    line.push('\n');
    line
}

// ---------------------------------------------------------------------------
// laws

/// Whether `s` is one line: it ends with a newline and holds no other.
pub open spec fn is_one_line(s: Seq<char>) -> bool {
    &&& s.len() > 0
    &&& s.last() == '\n'
    &&& forall|i: int| 0 <= i < s.len() - 1 ==> s[i] != '\n'
}

/// Whether `s` holds no control character below the space.
pub open spec fn printable(s: Seq<char>) -> bool {
    forall|i: int| 0 <= i < s.len() ==> #[trigger] s[i] >= ' '
}

proof fn field_list_is_printable(fields: Seq<(Seq<char>, Seq<char>)>)
    requires
        forall|i: int|
            0 <= i < fields.len() ==> printable((#[trigger] fields[i]).0) && printable(fields[i].1),
    ensures
        printable(field_list(fields)),
    decreases fields.len(),
{
    if fields.len() > 0 {
        assert(printable(field_text(fields[0])));
        assert(printable(field_text(fields.last())));
        if fields.len() > 1 {
            field_list_is_printable(fields.drop_last());
        }
    }
}

proof fn objects_are_one_line(fields: Seq<(Seq<char>, Seq<char>)>)
    requires
        forall|i: int|
            0 <= i < fields.len() ==> printable((#[trigger] fields[i]).0) && printable(fields[i].1),
    ensures
        is_one_line(line_of(fields)),
{
    field_list_is_printable(fields);
    assert(printable(object_text(fields)));
}

proof fn decimal_is_printable(n: nat)
    ensures
        printable(decimal(n)),
    decreases n,
{
    if n >= 10 {
        decimal_is_printable(n / 10);
    }
}

/// Whatever is asked of the remote, the request is exactly one line, so the
/// remote never reads two requests for one or one for two; even of input, which
/// may hold anything.
pub proof fn requests_are_one_line_each(bytes: Seq<u8>, scroll: Scroll, cols: nat, rows: nat)
    ensures
        is_one_line(input_line_of(bytes)),
        is_one_line(scroll_line_of(scroll)),
        is_one_line(resize_line_of(cols, rows)),
        is_one_line(release_line_of()),
{
    fixed_texts_are_plain();
    decimal_is_printable(from_zero(scroll.x));
    decimal_is_printable(from_zero(scroll.y));
    decimal_is_printable(3);
    decimal_is_printable(0);
    decimal_is_printable(cols);
    decimal_is_printable(rows);
    encoded_text_is_plain(bytes);
    objects_are_one_line(input_fields(base64_of(bytes)));
    objects_are_one_line(scroll_fields(scroll));
    objects_are_one_line(resize_fields(cols, rows));
    objects_are_one_line(release_fields());
}

proof fn one_field(field: (Seq<char>, Seq<char>))
    ensures
        field_list(seq![field]) == field_text(field),
{
}

proof fn one_more_field(fields: Seq<(Seq<char>, Seq<char>)>, field: (Seq<char>, Seq<char>))
    requires
        fields.len() > 0,
    ensures
        field_list(fields.push(field)) == field_list(fields) + seq![','] + field_text(field),
{
    assert(fields.push(field).drop_last() =~= fields);
}

/// Input is one JSON object with the type of an input message and, in base64, the
/// bytes that were typed: what it carries decodes to them.
pub proof fn an_input_line_carries_the_bytes(bytes: Seq<u8>)
    ensures
        exists|encoded: Seq<char>|
            {
                &&& base64_bytes(encoded) == Some(bytes)
                &&& input_line_of(bytes) == #[trigger] ("{\"bytes\":\""@ + encoded
                    + "\",\"type\":\"terminal.input\"}\n"@)
            },
{
    let encoded = base64_of(bytes);
    encoded_bytes_are_read_back(bytes);
    reveal_strlit("{\"bytes\":\"");
    reveal_strlit("\",\"type\":\"terminal.input\"}\n");
    reveal_strlit("bytes");
    reveal_strlit("type");
    reveal_strlit("terminal.input");
    let fields = input_fields(encoded);
    one_field(fields[0]);
    one_more_field(seq![fields[0]], fields[1]);
    assert(fields =~= seq![fields[0]].push(fields[1]));
    assert(field_list(fields) == field_text(fields[0]) + seq![','] + field_text(fields[1]));
    assert(input_line_of(bytes) =~= "{\"bytes\":\""@ + encoded
        + "\",\"type\":\"terminal.input\"}\n"@);
}

/// What a scroll line says of a column and a row that are counted from zero.
pub open spec fn scroll_text(column: Seq<char>, direction: Seq<char>, row: Seq<char>) -> Seq<
    char,
> {
    "{\"column\":"@ + column + ",\"direction\":\""@ + direction
        + "\",\"lines\":3,\"modifiers\":0,\"row\":"@ + row
        + ",\"source\":\"wheel\",\"type\":\"terminal.scroll\"}\n"@
}

/// Whether a text is the decimal of a place that `n` counts from one.
pub open spec fn is_place(text: Seq<char>, n: u32) -> bool {
    &&& n == 0 ==> number_of(text, u32::MAX as nat) == Some(0nat)
    &&& n > 0 ==> number_of(text, u32::MAX as nat) == Some((n - 1) as nat)
}

/// A scroll line asks for three lines up or down at the place of the wheel:
/// columns by columns, rows by rows, counted from zero.
pub proof fn a_scroll_line_says_where(scroll: Scroll)
    ensures
        exists|column: Seq<char>, row: Seq<char>|
            {
                &&& is_place(column, scroll.x)
                &&& is_place(row, scroll.y)
                &&& scroll.up ==> scroll_line_of(scroll) == #[trigger] scroll_text(
                    column,
                    "up"@,
                    row,
                )
                &&& !scroll.up ==> scroll_line_of(scroll) == scroll_text(column, "down"@, row)
            },
{
    let column = decimal(from_zero(scroll.x));
    let row = decimal(from_zero(scroll.y));
    written_numbers_are_read_back(from_zero(scroll.x), u32::MAX as nat);
    written_numbers_are_read_back(from_zero(scroll.y), u32::MAX as nat);
    let direction = if scroll.up {
        "up"@
    } else {
        "down"@
    };
    let f = scroll_fields(scroll);
    let g2 = seq![f[0]].push(f[1]);
    let g5 = g2.push(f[2]).push(f[3]).push(f[4]);
    one_more_field(g2, f[2]);
    one_more_field(g2.push(f[2]), f[3]);
    one_more_field(g2.push(f[2]).push(f[3]), f[4]);
    one_more_field(g5, f[5]);
    one_more_field(g5.push(f[5]), f[6]);
    assert(f =~= g5.push(f[5]).push(f[6]));
    scroll_line_begins(column, direction);
    scroll_line_goes_on(field_list(g2), row);
    scroll_line_ends(field_list(g5));
    put_in_line(
        scroll_line_of(scroll),
        field_list(f),
        field_list(g2),
        field_list(g5),
        "{\"column\":"@ + column + ",\"direction\":\""@ + direction,
        row,
    );
    assert(scroll_line_of(scroll) == scroll_text(column, direction, row));
    assert(scroll_text(column, "up"@, row).len() >= 0);
}

proof fn scroll_line_begins(column: Seq<char>, direction: Seq<char>)
    ensures
        seq!['{'] + field_list(
            seq![("column"@, column)].push(("direction"@, quoted(direction))),
        ) == "{\"column\":"@ + column + ",\"direction\":\""@ + direction + seq!['"'],
{
    one_field(("column"@, column));
    one_more_field(seq![("column"@, column)], ("direction"@, quoted(direction)));
    reveal_strlit("{\"column\":");
    reveal_strlit(",\"direction\":\"");
    reveal_strlit("column");
    reveal_strlit("direction");
    let a = seq!['{'] + field_text(("column"@, column));
    assert(a =~= "{\"column\":"@ + column);
    let b = seq![','] + field_text(("direction"@, quoted(direction)));
    assert(b =~= ",\"direction\":\""@ + direction + seq!['"']);
}

proof fn scroll_line_goes_on(before: Seq<char>, row: Seq<char>)
    ensures
        before + seq![','] + field_text(("lines"@, decimal(3))) + seq![','] + field_text(
            ("modifiers"@, decimal(0)),
        ) + seq![','] + field_text(("row"@, row)) == before
            + ",\"lines\":3,\"modifiers\":0,\"row\":"@ + row,
{
    reveal_strlit(",\"lines\":3,\"modifiers\":0,\"row\":");
    reveal_strlit("lines");
    reveal_strlit("modifiers");
    reveal_strlit("row");
    assert(decimal(3) == seq!['3'] && decimal(0) == seq!['0']);
    let a = seq![','] + field_text(("lines"@, decimal(3))) + seq![','] + field_text(
        ("modifiers"@, decimal(0)),
    ) + seq![','] + field_text(("row"@, row));
    assert(a =~= ",\"lines\":3,\"modifiers\":0,\"row\":"@ + row);
    assert(before + seq![','] + field_text(("lines"@, decimal(3))) + seq![','] + field_text(
        ("modifiers"@, decimal(0)),
    ) + seq![','] + field_text(("row"@, row)) =~= before + a);
}

proof fn scroll_line_ends(before: Seq<char>)
    ensures
        before + seq![','] + field_text(("source"@, quoted("wheel"@))) + seq![','] + field_text(
            ("type"@, quoted("terminal.scroll"@)),
        ) + seq!['}', '\n'] == before
            + ",\"source\":\"wheel\",\"type\":\"terminal.scroll\"}\n"@,
{
    reveal_strlit(",\"source\":\"wheel\",\"type\":\"terminal.scroll\"}\n");
    reveal_strlit("source");
    reveal_strlit("wheel");
    reveal_strlit("type");
    reveal_strlit("terminal.scroll");
    let a = seq![','] + field_text(("source"@, quoted("wheel"@))) + seq![','] + field_text(
        ("type"@, quoted("terminal.scroll"@)),
    ) + seq!['}', '\n'];
    assert(a =~= ",\"source\":\"wheel\",\"type\":\"terminal.scroll\"}\n"@);
    assert(before + seq![','] + field_text(("source"@, quoted("wheel"@))) + seq![','] + field_text(
        ("type"@, quoted("terminal.scroll"@)),
    ) + seq!['}', '\n'] =~= before + a);
}

proof fn put_in_line(
    line: Seq<char>,
    all: Seq<char>,
    two: Seq<char>,
    five: Seq<char>,
    head: Seq<char>,
    row: Seq<char>,
)
    requires
        line == (seq!['{'] + all + seq!['}']).push('\n'),
        seq!['{'] + two == head + seq!['"'],
        five == two + ",\"lines\":3,\"modifiers\":0,\"row\":"@ + row,
        all + seq!['}', '\n'] == five
            + ",\"source\":\"wheel\",\"type\":\"terminal.scroll\"}\n"@,
    ensures
        line == head + "\",\"lines\":3,\"modifiers\":0,\"row\":"@ + row
            + ",\"source\":\"wheel\",\"type\":\"terminal.scroll\"}\n"@,
{
    let middle = ",\"lines\":3,\"modifiers\":0,\"row\":"@;
    let quote_middle = "\",\"lines\":3,\"modifiers\":0,\"row\":"@;
    let end = ",\"source\":\"wheel\",\"type\":\"terminal.scroll\"}\n"@;
    assert(quote_middle =~= seq!['"'] + middle) by {
        reveal_strlit(",\"lines\":3,\"modifiers\":0,\"row\":");
        reveal_strlit("\",\"lines\":3,\"modifiers\":0,\"row\":");
    }
    assert(line =~= seq!['{'] + (all + seq!['}', '\n']));
    assert(line =~= (seq!['{'] + two) + middle + row + end);
    assert(line =~= head + (seq!['"'] + middle) + row + end);
}

/// What a resize line says of a size.
pub open spec fn resize_text(width: Seq<char>, height: Seq<char>) -> Seq<char> {
    "{\"cols\":"@ + width + ",\"rows\":"@ + height + ",\"type\":\"terminal.resize\"}\n"@
}

/// A resize line gives the columns and the rows, each as what it is.
#[verifier::rlimit(40)]
pub proof fn a_resize_line_says_the_size(cols: nat, rows: nat)
    ensures
        exists|width: Seq<char>, height: Seq<char>|
            {
                &&& number_of(width, cols) == Some(cols)
                &&& number_of(height, rows) == Some(rows)
                &&& resize_line_of(cols, rows) == #[trigger] resize_text(width, height)
            },
{
    written_numbers_are_read_back(cols, cols);
    written_numbers_are_read_back(rows, rows);
    reveal_strlit("{\"cols\":");
    reveal_strlit(",\"rows\":");
    reveal_strlit(",\"type\":\"terminal.resize\"}\n");
    reveal_strlit("cols");
    reveal_strlit("rows");
    reveal_strlit("type");
    reveal_strlit("terminal.resize");
    let f = resize_fields(cols, rows);
    one_field(f[0]);
    one_more_field(seq![f[0]], f[1]);
    one_more_field(seq![f[0]].push(f[1]), f[2]);
    assert(f =~= seq![f[0]].push(f[1]).push(f[2]));
    assert(field_list(f) == field_text(f[0]) + seq![','] + field_text(f[1]) + seq![',']
        + field_text(f[2]));
    assert(resize_line_of(cols, rows) =~= resize_text(decimal(cols), decimal(rows)));
}

/// Giving control back is this one line.
pub proof fn the_release_line_is_this()
    ensures
        release_line_of() == "{\"type\":\"terminal.release\"}\n"@,
{
    reveal_strlit("{\"type\":\"terminal.release\"}\n");
    reveal_strlit("type");
    reveal_strlit("terminal.release");
    one_field(release_fields()[0]);
    assert(release_line_of() =~= "{\"type\":\"terminal.release\"}\n"@);
}

} // verus!
