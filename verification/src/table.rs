//! The table in which the world is printed: one row for each entity, one
//! column for each kind of component, cells padded or cut to the width of
//! their column.

use vstd::prelude::*;
use vstd::string::StrSliceExecFns;
use vstd::string::StringExecFns;

use crate::input::{Axis, ElementState, KeyCode};

verus! {

/// `count` times the character `c`.
pub open spec fn repeated(c: char, count: nat) -> Seq<char> {
    Seq::new(count, |i: int| c)
}

/// `text`, or its first `width` characters where it is longer than that.
pub open spec fn cut(text: Seq<char>, width: nat) -> Seq<char> {
    if text.len() <= width {
        text
    } else {
        text.take(width as int)
    }
}

/// `text` cut to `width` and filled up with spaces behind it.
pub open spec fn left_aligned(text: Seq<char>, width: nat) -> Seq<char> {
    cut(text, width) + repeated(' ', (width - cut(text, width).len()) as nat)
}

/// `text` cut to `width` and filled up with spaces on both sides. Where the
/// spaces cannot be shared out evenly, the odd one stands behind the text.
pub open spec fn centred(text: Seq<char>, width: nat) -> Seq<char> {
    let shown = cut(text, width);
    let spaces = (width - shown.len()) as nat;
    repeated(' ', spaces / 2) + shown + repeated(' ', (spaces - spaces / 2) as nat)
}

/// The cell for a value in a column of `width` characters: the value between
/// two spaces, cut or filled up to fit. A missing value leaves the cell
/// blank.
pub open spec fn value_cell(value: Option<Seq<char>>, width: nat) -> Seq<char> {
    match value {
        Some(text) => seq![' '] + left_aligned(text, (width - 2) as nat) + seq![' '],
        None => repeated(' ', width),
    }
}

/// Appends `count` copies of the one character that `unit` holds.
fn push_repeated(line: &mut String, unit: &str, count: usize)
    requires
        unit@.len() == 1,
    ensures
        final(line)@ == old(line)@ + repeated(unit@[0], count as nat),
{
    let mut i: usize = 0;
    while i < count
        invariant
            i <= count,
            unit@.len() == 1,
            line@ == old(line)@ + repeated(unit@[0], i as nat),
        decreases count - i,
    {
        line.append(unit);
        i += 1;
        proof {
            assert(unit@ =~= seq![unit@[0]]);
            assert(line@ =~= old(line)@ + repeated(unit@[0], i as nat));
        }
    }
}

/// Appends `text` cut to `width`, and says how many characters that was.
fn push_cut(line: &mut String, text: &str, width: usize) -> (shown: usize)
    ensures
        final(line)@ == old(line)@ + cut(text@, width as nat),
        shown == cut(text@, width as nat).len(),
        shown <= width,
{
    let len = text.unicode_len();
    if len <= width {
        line.append(text);
        len
    } else {
        line.append(text.substring_char(0, width));
        width
    }
}

/// The name of a column, centred in `column_width` characters.
pub fn fmt_header(name: &str, column_width: usize) -> (cell: String)
    ensures
        cell@ == centred(name@, column_width as nat),
{
    let len = name.unicode_len();
    let shown = if len <= column_width {
        len
    } else {
        column_width
    };
    let spaces = column_width - shown;
    let mut cell = String::new();
    proof {
        reveal_strlit(" ");
    }
    push_repeated(&mut cell, " ", spaces / 2);
    push_cut(&mut cell, name, column_width);
    push_repeated(&mut cell, " ", spaces - spaces / 2);
    proof {
        assert(cell@ =~= centred(name@, column_width as nat));
    }
    cell
}

/// The cell of a row for `value`, in a column of `column_width` characters.
/// A value needs a column wide enough for the space on either side of it.
pub fn fmt_value(value: Option<&str>, column_width: usize) -> (cell: String)
    requires
        value is Some ==> column_width >= 2,
    ensures
        cell@ == value_cell(
            match value {
                Some(text) => Some(text@),
                None => None,
            },
            column_width as nat,
        ),
{
    let mut cell = String::new();
    proof {
        reveal_strlit(" ");
    }
    match value {
        Some(text) => {
            cell.append(" ");
            let shown = push_cut(&mut cell, text, column_width - 2);
            push_repeated(&mut cell, " ", column_width - 2 - shown);
            cell.append(" ");
            proof {
                assert(" "@ =~= seq![' ']);
                assert(cell@ =~= value_cell(Some(text@), column_width as nat));
            }
        },
        None => {
            push_repeated(&mut cell, " ", column_width);
            proof {
                assert(cell@ =~= repeated(' ', column_width as nat));
            }
        },
    }
    cell
}

/// Whether `key` has a name in the table: the four keys that steer the
/// paddles have.
pub open spec fn has_name(key: KeyCode) -> bool {
    key == KeyCode::Q || key == KeyCode::A || key == KeyCode::O || key == KeyCode::L
}

/// What a key is called in the table.
pub open spec fn key_name(key: KeyCode) -> Seq<char> {
    match key {
        KeyCode::Q => "q"@,
        KeyCode::A => "a"@,
        KeyCode::O => "o"@,
        _ => "l"@,
    }
}

/// What a key state is called in the table.
pub open spec fn state_name(state: ElementState) -> Seq<char> {
    match state {
        ElementState::Pressed => "pressed"@,
        ElementState::Released => "released"@,
    }
}

/// An axis written out: for the positive and then the negative binding, the
/// key and the state it was last seen in.
pub open spec fn axis_text(axis: Axis) -> Seq<char> {
    "{ +ve = { key = "@ + key_name(axis.pos.key) + ", state = "@ + state_name(axis.pos.state)
        + " }, -ve = { key = "@ + key_name(axis.neg.key) + ", state = "@ + state_name(
        axis.neg.state,
    ) + " } }"@
}

/// What a key is called in the table. Only the four keys that steer the
/// paddles have a name there.
pub fn fmt_key(key: KeyCode) -> (name: &'static str)
    requires
        has_name(key),
    ensures
        name@ == key_name(key),
{
    match key {
        KeyCode::Q => "q",
        KeyCode::A => "a",
        KeyCode::O => "o",
        _ => "l",
    }
}

/// What a key state is called in the table.
pub fn fmt_state(state: ElementState) -> (name: &'static str)
    ensures
        name@ == state_name(state),
{
    match state {
        ElementState::Pressed => "pressed",
        ElementState::Released => "released",
    }
}

/// Writes an axis out for the table. Both of its keys must have a name.
pub fn fmt_axis(axis: &Axis) -> (text: String)
    requires
        has_name(axis.pos.key),
        has_name(axis.neg.key),
    ensures
        text@ == axis_text(*axis),
{
    let mut text = String::new();
    text.append("{ +ve = { key = ");
    text.append(fmt_key(axis.pos.key));
    text.append(", state = ");
    text.append(fmt_state(axis.pos.state));
    text.append(" }, -ve = { key = ");
    text.append(fmt_key(axis.neg.key));
    text.append(", state = ");
    text.append(fmt_state(axis.neg.state));
    text.append(" } }");
    proof {
        assert(text@ =~= axis_text(*axis));
    }
    text
}

/// The width of the column of entity numbers.
pub const COLUMN_0: usize = 6;

/// The width of the column of positions.
pub const COLUMN_1: usize = 20;

/// The width of the column of velocities.
pub const COLUMN_2: usize = 20;

/// The width of the column of paddles.
pub const COLUMN_3: usize = 20;

/// The width of the column of balls.
pub const COLUMN_4: usize = 20;

/// The width of the column of key bindings.
pub const COLUMN_5: usize = 80;

/// What the table shows of one entity: its number and, for each kind of
/// component that it has, the component written out.
#[derive(Debug, PartialEq, Eq)]
pub struct Row {
    pub id: String,
    pub position: Option<String>,
    pub velocity: Option<String>,
    pub paddle: Option<String>,
    pub ball: Option<String>,
    pub axis: Option<String>,
}

/// The characters of a cell's text, if the cell has one.
pub open spec fn text_of(value: Option<String>) -> Option<Seq<char>> {
    match value {
        Some(text) => Some(text@),
        None => None,
    }
}

/// Six cells in a line: a bar between the first and the second, a thinner
/// one between the others.
pub open spec fn joined(cells: Seq<Seq<char>>, bar: char, thin_bar: char) -> Seq<char> {
    cells[0] + seq![bar] + cells[1] + seq![thin_bar] + cells[2] + seq![thin_bar] + cells[3]
        + seq![thin_bar] + cells[4] + seq![thin_bar] + cells[5]
}

/// The line that names the columns.
pub open spec fn header_line() -> Seq<char> {
    joined(
        seq![
            repeated(' ', COLUMN_0 as nat),
            centred("Position"@, COLUMN_1 as nat),
            centred("Velocity"@, COLUMN_2 as nat),
            centred("Paddle"@, COLUMN_3 as nat),
            centred("Ball"@, COLUMN_4 as nat),
            centred("Keybind"@, COLUMN_5 as nat),
        ],
        '┃',
        '│',
    )
}

/// A line drawn across the table with the character `dash`.
pub open spec fn rule_line(dash: char, cross: char, thin_cross: char) -> Seq<char> {
    joined(
        seq![
            repeated(dash, COLUMN_0 as nat),
            repeated(dash, COLUMN_1 as nat),
            repeated(dash, COLUMN_2 as nat),
            repeated(dash, COLUMN_3 as nat),
            repeated(dash, COLUMN_4 as nat),
            repeated(dash, COLUMN_5 as nat),
        ],
        cross,
        thin_cross,
    )
}

/// The line for one entity.
pub open spec fn row_line(row: Row) -> Seq<char> {
    joined(
        seq![
            value_cell(Some(row.id@), COLUMN_0 as nat),
            value_cell(text_of(row.position), COLUMN_1 as nat),
            value_cell(text_of(row.velocity), COLUMN_2 as nat),
            value_cell(text_of(row.paddle), COLUMN_3 as nat),
            value_cell(text_of(row.ball), COLUMN_4 as nat),
            value_cell(text_of(row.axis), COLUMN_5 as nat),
        ],
        '┃',
        '│',
    )
}

/// The lines for the entities: one for each, and a thin rule between every
/// two.
pub open spec fn body_lines(rows: Seq<Row>) -> Seq<Seq<char>>
    decreases rows.len(),
{
    if rows.len() == 0 {
        Seq::empty()
    } else if rows.len() == 1 {
        seq![row_line(rows[0])]
    } else {
        body_lines(rows.drop_last()) + seq![rule_line('─', '╂', '┼'), row_line(rows.last())]
    }
}

/// The whole table: the header, a heavy rule, the entities, and an empty
/// line to end with.
pub open spec fn table_lines(rows: Seq<Row>) -> Seq<Seq<char>> {
    seq![header_line(), rule_line('━', '╋', '┿')] + body_lines(rows) + seq![Seq::empty()]
}

/// What a terminal of `rows` lines of `cols` characters is sent of `lines`:
/// no more than one line beyond `rows`, each cut to `cols`.
pub open spec fn clipped(lines: Seq<Seq<char>>, rows: nat, cols: nat) -> Seq<Seq<char>> {
    Seq::new(
        if lines.len() <= rows + 1 {
            lines.len()
        } else {
            rows + 1
        },
        |i: int| cut(lines[i], cols),
    )
}

fn header() -> (line: String)
    ensures
        line@ == header_line(),
{
    let mut line = String::new();
    proof {
        reveal_strlit(" ");
        reveal_strlit("┃");
        reveal_strlit("│");
    }
    push_repeated(&mut line, " ", COLUMN_0);
    line.append("┃");
    line.append(fmt_header("Position", COLUMN_1).as_str());
    line.append("│");
    line.append(fmt_header("Velocity", COLUMN_2).as_str());
    line.append("│");
    line.append(fmt_header("Paddle", COLUMN_3).as_str());
    line.append("│");
    line.append(fmt_header("Ball", COLUMN_4).as_str());
    line.append("│");
    line.append(fmt_header("Keybind", COLUMN_5).as_str());
    proof {
        assert("┃"@ =~= seq!['┃']);
        assert("│"@ =~= seq!['│']);
        assert(line@ =~= header_line());
    }
    line
}

fn rule(dash: &str, cross: &str, thin_cross: &str) -> (line: String)
    requires
        dash@.len() == 1,
        cross@.len() == 1,
        thin_cross@.len() == 1,
    ensures
        line@ == rule_line(dash@[0], cross@[0], thin_cross@[0]),
{
    let mut line = String::new();
    push_repeated(&mut line, dash, COLUMN_0);
    line.append(cross);
    push_repeated(&mut line, dash, COLUMN_1);
    line.append(thin_cross);
    push_repeated(&mut line, dash, COLUMN_2);
    line.append(thin_cross);
    push_repeated(&mut line, dash, COLUMN_3);
    line.append(thin_cross);
    push_repeated(&mut line, dash, COLUMN_4);
    line.append(thin_cross);
    push_repeated(&mut line, dash, COLUMN_5);
    proof {
        assert(cross@ =~= seq![cross@[0]]);
        assert(thin_cross@ =~= seq![thin_cross@[0]]);
        assert(line@ =~= rule_line(dash@[0], cross@[0], thin_cross@[0]));
    }
    line
}

fn optional_cell(value: &Option<String>, column_width: usize) -> (cell: String)
    requires
        column_width >= 2,
    ensures
        cell@ == value_cell(text_of(*value), column_width as nat),
{
    match value {
        Some(text) => fmt_value(Some(text.as_str()), column_width),
        None => fmt_value(None, column_width),
    }
}

fn row(entity: &Row) -> (line: String)
    ensures
        line@ == row_line(*entity),
{
    let row = entity;
    let mut line = fmt_value(Some(row.id.as_str()), COLUMN_0);
    proof {
        reveal_strlit("┃");
        reveal_strlit("│");
    }
    line.append("┃");
    line.append(optional_cell(&row.position, COLUMN_1).as_str());
    line.append("│");
    line.append(optional_cell(&row.velocity, COLUMN_2).as_str());
    line.append("│");
    line.append(optional_cell(&row.paddle, COLUMN_3).as_str());
    line.append("│");
    line.append(optional_cell(&row.ball, COLUMN_4).as_str());
    line.append("│");
    line.append(optional_cell(&row.axis, COLUMN_5).as_str());
    proof {
        assert("┃"@ =~= seq!['┃']);
        assert("│"@ =~= seq!['│']);
        assert(line@ =~= row_line(*row));
    }
    line
}

fn heavy_rule() -> (line: String)
    ensures
        line@ == rule_line('━', '╋', '┿'),
{
    proof {
        reveal_strlit("━");
        reveal_strlit("╋");
        reveal_strlit("┿");
    }
    rule("━", "╋", "┿")
}

fn thin_rule() -> (line: String)
    ensures
        line@ == rule_line('─', '╂', '┼'),
{
    proof {
        reveal_strlit("─");
        reveal_strlit("╂");
        reveal_strlit("┼");
    }
    rule("─", "╂", "┼")
}

/// Lays the table out, line by line.
pub fn table(rows: &Vec<Row>) -> (lines: Vec<String>)
    ensures
        lines.deep_view() == table_lines(rows@),
{
    let mut lines: Vec<String> = Vec::new();
    lines.push(header());
    lines.push(heavy_rule());
    let ghost top = lines.deep_view();
    assert(top =~= seq![header_line(), rule_line('━', '╋', '┿')]);
    let mut i: usize = 0;
    while i < rows.len()
        invariant
            i <= rows.len(),
            lines.deep_view() == top + body_lines(rows@.take(i as int)),
        decreases rows.len() - i,
    {
        let ghost before = lines.deep_view();
        if i > 0 {
            lines.push(thin_rule());
        }
        lines.push(row(&rows[i]));
        proof {
            let taken = rows@.take(i + 1);
            assert(taken.drop_last() =~= rows@.take(i as int));
            assert(taken.last() == rows@[i as int]);
            if i == 0 {
                assert(body_lines(rows@.take(0)) =~= Seq::<Seq<char>>::empty());
                assert(lines.deep_view() =~= before + seq![row_line(rows@[0])]);
                assert(taken[0] == rows@[0]);
            } else {
                assert(lines.deep_view() =~= before + seq![
                    rule_line('─', '╂', '┼'),
                    row_line(rows@[i as int]),
                ]);
            }
            assert(lines.deep_view() =~= top + body_lines(taken));
        }
        i += 1;
    }
    let ghost before = lines.deep_view();
    lines.push(String::new());
    proof {
        assert(rows@.take(i as int) =~= rows@);
        assert(lines.deep_view() =~= before + seq![Seq::<char>::empty()]);
        assert(lines.deep_view() =~= table_lines(rows@));
    }
    lines
}

/// Picks what a terminal of `rows` lines of `cols` characters is sent of the
/// table: its first `rows + 1` lines, each cut to `cols` characters.
pub fn clip(lines: &Vec<String>, rows: u16, cols: u16) -> (shown: Vec<String>)
    ensures
        shown.deep_view() == clipped(lines.deep_view(), rows as nat, cols as nat),
{
    let mut shown: Vec<String> = Vec::new();
    let mut i: usize = 0;
    while i < lines.len() && i <= rows as usize
        invariant
            i <= lines.len(),
            i <= rows + 1,
            shown.len() == i,
            forall|k: int|
                0 <= k < i ==> (#[trigger] shown@[k])@ == cut(lines@[k]@, cols as nat),
        decreases lines.len() - i,
    {
        let mut line = String::new();
        push_cut(&mut line, lines[i].as_str(), cols as usize);
        proof {
            assert(line@ =~= cut(lines@[i as int]@, cols as nat));
        }
        shown.push(line);
        i += 1;
    }
    proof {
        assert(shown.deep_view() =~= clipped(lines.deep_view(), rows as nat, cols as nat));
    }
    shown
}

} // verus!
