//! Cursor placement and hard wrapping for dialog input fields.
//!
//! Wrapping is computed here rather than by the renderer so that the terminal cursor
//! and the displayed text follow the same layout rules.

use vstd::prelude::*;
use crate::ext::{line_width, line_display_width, push_char};

verus! {

/// Columns that one character occupies, as ratatui measures it.
pub open spec fn char_columns(c: char) -> int {
    line_display_width(seq![c]) as int
}

/// A count clamped to the `u16` range, as `u16::try_from(..).unwrap_or(u16::MAX)` does.
pub open spec fn clamp_u16(v: int) -> int {
    if v > 65535 { 65535 } else { v }
}

/// The cursor position (row, column) after each prefix of the text, and the rendered
/// text with its inserted line breaks.  `positions[k]` is where the cursor stands after
/// the first `k` characters.
pub open spec fn wrap_layout(chars: Seq<char>, width: int) -> (Seq<char>, Seq<(int, int)>)
    decreases chars.len(),
{
    if chars.len() == 0 {
        (Seq::empty(), seq![(0int, 0int)])
    } else {
        let (rendered, positions) = wrap_layout(chars.drop_last(), width);
        let (row, column) = positions.last();
        let (rendered2, row2, column2) = wrap_step(rendered, row, column, chars.last(), width);
        (rendered2, positions.push((row2, column2)))
    }
}

/// Lays one character out: a newline starts a row; a character that does not fit
/// after text on the row moves to the next row; a row that becomes full is closed.
pub open spec fn wrap_step(rendered: Seq<char>, row: int, column: int, c: char, width: int) -> (Seq<char>, int, int) {
    if c == '\n' {
        (rendered.push('\n'), row + 1, 0)
    } else {
        let w = char_columns(c);
        let (r1, row1, col1) = if column > 0 && column + w > width {
            (rendered.push('\n'), row + 1, 0int)
        } else {
            (rendered, row, column)
        };
        let r2 = r1.push(c);
        let col2 = col1 + w;
        if col2 >= width {
            (r2.push('\n'), row1 + 1, 0int)
        } else {
            (r2, row1, col2)
        }
    }
}

pub open spec fn positions_view(p: Seq<(usize, usize)>) -> Seq<(int, int)> {
    p.map_values(|x: (usize, usize)| (x.0 as int, x.1 as int))
}

/// The characters of a string slice, in order.
pub fn chars_of(s: &str) -> (v: Vec<char>)
    ensures
        v@ == s@,
{
    let mut v: Vec<char> = Vec::new();
    for c in it: s.chars()
        invariant
            v@ == it.seq().take(it.index() as int),
            it.seq() == s@,
    {
        v.push(c);
    }
    v
}

proof fn lemma_layout_bounds(chars: Seq<char>, width: int)
    requires
        width >= 0,
    ensures
        wrap_layout(chars, width).1.len() == chars.len() + 1,
        0 <= wrap_layout(chars, width).1.last().0 <= 2 * chars.len(),
        0 <= wrap_layout(chars, width).1.last().1,
        width >= 1 ==> wrap_layout(chars, width).1.last().1 < width,
        width == 0 ==> wrap_layout(chars, width).1.last().1 == 0,
    decreases chars.len(),
{
    if chars.len() > 0 {
        lemma_layout_bounds(chars.drop_last(), width);
    }
}


/// Whether a character is not a line break.
pub open spec fn not_break() -> spec_fn(char) -> bool {
    |c: char| c != '\n'
}

/// Whether a character is a line break.
pub open spec fn is_break() -> spec_fn(char) -> bool {
    |c: char| c == '\n'
}

/// Wrapping only inserts line breaks: without its line breaks the rendered text is the
/// input without its line breaks, and it holds at least as many line breaks as the input.
pub proof fn lemma_wrap_only_inserts_breaks(chars: Seq<char>, width: int)
    ensures
        wrap_layout(chars, width).0.filter(not_break()) == chars.filter(not_break()),
        wrap_layout(chars, width).0.filter(is_break()).len() >= chars.filter(is_break()).len(),
    decreases chars.len(),
{
    if chars.len() > 0 {
        let init = chars.drop_last();
        let c = chars.last();
        lemma_wrap_only_inserts_breaks(init, width);
        assert(chars =~= init.push(c));
        init.lemma_filter_push(c, not_break());
        init.lemma_filter_push(c, is_break());
        let (rendered, positions) = wrap_layout(init, width);
        let (row, column) = positions.last();
        let nb = not_break();
        let ib = is_break();
        rendered.lemma_filter_push('\n', nb);
        rendered.lemma_filter_push('\n', ib);
        if c != '\n' {
            let w = char_columns(c);
            let r1 = if column > 0 && column + w > width { rendered.push('\n') } else { rendered };
            assert(r1.filter(nb) == rendered.filter(nb));
            assert(r1.filter(ib).len() >= rendered.filter(ib).len());
            r1.lemma_filter_push(c, nb);
            r1.lemma_filter_push(c, ib);
            let r2 = r1.push(c);
            r2.lemma_filter_push('\n', nb);
            r2.lemma_filter_push('\n', ib);
        }
    }
}

/// One laid-out character starts at most one more row than it ends on a non-empty row.
proof fn lemma_step_rows(rendered: Seq<char>, row: int, column: int, c: char, width: int)
    requires
        width >= 1,
        0 <= column < width,
        0 <= row,
    ensures
        ({
            let (r2, row2, col2) = wrap_step(rendered, row, column, c, width);
            &&& 0 <= col2 < width
            &&& row <= row2
            &&& row2 + (if col2 > 0 { 1int } else { 0int }) <= row + (if column > 0 { 1int } else { 0int }) + 1
        }),
{
    assert(char_columns(c) >= 0);
}

/// Every cursor position of a wrapped text lies in a column before the width, and on a
/// row no later than its index (one less where the row already holds text).
pub proof fn lemma_positions_bounded(chars: Seq<char>, width: int)
    requires
        width >= 1,
    ensures
        forall|k: int| 0 <= k <= chars.len() ==> 0 <= #[trigger] wrap_layout(chars, width).1[k].0
            && wrap_layout(chars, width).1[k].0 + (if wrap_layout(chars, width).1[k].1 > 0 { 1int } else { 0int }) <= k
            && 0 <= wrap_layout(chars, width).1[k].1 < width,
        wrap_layout(chars, width).1.len() == chars.len() + 1,
    decreases chars.len(),
{
    lemma_layout_bounds(chars, width);
    if chars.len() > 0 {
        lemma_positions_bounded(chars.drop_last(), width);
        let (rendered, prev) = wrap_layout(chars.drop_last(), width);
        let n = chars.len() as int;
        let (row, column) = prev.last();
        assert(prev.last() == prev[n - 1]);
        lemma_step_rows(rendered, row, column, chars.last(), width);
        assert forall|k: int| 0 <= k <= chars.len() implies 0 <= #[trigger] wrap_layout(chars, width).1[k].0
            && wrap_layout(chars, width).1[k].0 + (if wrap_layout(chars, width).1[k].1 > 0 { 1int } else { 0int }) <= k
            && 0 <= wrap_layout(chars, width).1[k].1 < width by {
            if k < chars.len() {
                assert(wrap_layout(chars, width).1[k] == prev[k]);
            }
        }
    }
}


/// The row of the last cursor position is the number of line breaks in the rendered
/// text, and no earlier position lies on a later row.
pub proof fn lemma_rows_count_breaks(chars: Seq<char>, width: int)
    requires
        width >= 1,
    ensures
        wrap_layout(chars, width).1.last().0 == wrap_layout(chars, width).0.filter(is_break()).len(),
        forall|k: int| 0 <= k < wrap_layout(chars, width).1.len()
            ==> #[trigger] wrap_layout(chars, width).1[k].0 <= wrap_layout(chars, width).1.last().0,
    decreases chars.len(),
{
    lemma_positions_bounded(chars, width);
    if chars.len() == 0 {
        assert(Seq::<char>::empty().filter(is_break()) =~= Seq::<char>::empty()) by {
            reveal_with_fuel(Seq::filter, 1);
        }
    } else {
        let init = chars.drop_last();
        let c = chars.last();
        lemma_rows_count_breaks(init, width);
        lemma_positions_bounded(init, width);
        let (rendered, positions) = wrap_layout(init, width);
        let (row, column) = positions.last();
        assert(positions.last() == positions[init.len() as int]);
        lemma_step_rows(rendered, row, column, c, width);
        let ib = is_break();
        rendered.lemma_filter_push('\n', ib);
        if c != '\n' {
            let w = char_columns(c);
            let r1 = if column > 0 && column + w > width { rendered.push('\n') } else { rendered };
            r1.lemma_filter_push(c, ib);
            let r2 = r1.push(c);
            r2.lemma_filter_push('\n', ib);
        }
        let all = wrap_layout(chars, width).1;
        assert forall|k: int| 0 <= k < all.len() implies #[trigger] all[k].0 <= all.last().0 by {
            if k < positions.len() {
                assert(all[k] == positions[k]);
            }
        }
    }
}

/// The input layout: wrapping only inserts line breaks; the cursor's column lies
/// before the width and its row is at most the number of rendered line breaks; and a
/// cursor past the end reads as the cursor at the end, a width of zero as a width of one.
pub proof fn lemma_input_layout_law(input: Seq<char>, cursor: int, visible_width: int)
    requires
        0 <= cursor,
        0 <= visible_width <= 65535,
    ensures
        ({
            let width = if visible_width < 1 { 1 } else { visible_width };
            let n = input.len() as int;
            let (r, row, col) = input_layout_spec(input, cursor, visible_width);
            &&& r.filter(not_break()) == input.filter(not_break())
            &&& r.filter(is_break()).len() >= input.filter(is_break()).len()
            &&& 0 <= col < width
            &&& 0 <= row <= r.filter(is_break()).len()
            &&& input_layout_spec(input, cursor, visible_width)
                == input_layout_spec(input, if cursor < n { cursor } else { n }, width)
        }),
{
    let width = if visible_width < 1 { 1 } else { visible_width };
    lemma_wrap_only_inserts_breaks(input, width);
    lemma_positions_bounded(input, width);
    lemma_rows_count_breaks(input, width);
    let positions = wrap_layout(input, width).1;
    let i = capped_index(cursor, positions.len() as int);
    assert(0 <= i < positions.len());
    assert(positions[i].0 <= positions.last().0);
}


/// How many characters follow the last line break of the text.
pub open spec fn trailing_run(r: Seq<char>) -> nat
    decreases r.len(),
{
    if r.len() == 0 || r.last() == '\n' { 0 } else { trailing_run(r.drop_last()) + 1 }
}

/// Whether the characters from `i` to `j` hold no line break.
pub open spec fn break_free(r: Seq<char>, i: int, j: int) -> bool {
    forall|m: int| i <= m <= j ==> r[m] != '\n'
}

/// Whether no line of the text holds more than `width` characters.
pub open spec fn lines_within(r: Seq<char>, width: int) -> bool {
    forall|i: int, j: int| 0 <= i <= j < r.len() && #[trigger] break_free(r, i, j) ==> j - i < width
}

/// A run of characters without a line break that reaches the end of the text is at
/// most its trailing run.
proof fn lemma_run_at_end(r: Seq<char>, i: int)
    requires
        0 <= i < r.len(),
        forall|m: int| i <= m < r.len() ==> r[m] != '\n',
    ensures
        r.len() - i <= trailing_run(r),
    decreases r.len(),
{
    assert(r[r.len() - 1] == r.last());
    if i < r.len() - 1 {
        let d = r.drop_last();
        assert forall|m: int| i <= m < d.len() implies d[m] != '\n' by {
            assert(d[m] == r[m]);
        }
        lemma_run_at_end(d, i);
    }
}

/// Adding a character keeps lines within the width when the new last line does.
proof fn lemma_push_within(r: Seq<char>, c: char, width: int)
    requires
        lines_within(r, width),
        c == '\n' || trailing_run(r) + 1 <= width,
    ensures
        lines_within(r.push(c), width),
        trailing_run(r.push(c)) == if c == '\n' { 0 } else { trailing_run(r) + 1 },
{
    let s = r.push(c);
    assert(s.drop_last() =~= r);
    assert forall|i: int, j: int| 0 <= i <= j < s.len() && #[trigger] break_free(s, i, j) implies j - i < width by {
        if j < r.len() {
            assert forall|m: int| i <= m <= j implies r[m] != '\n' by {
                assert(s[m] == r[m]);
            }
            assert(break_free(r, i, j));
        } else {
            assert(s[j] == c);
            if i < r.len() {
                assert forall|m: int| i <= m < r.len() implies r[m] != '\n' by {
                    assert(s[m] == r[m]);
                }
                lemma_run_at_end(r, i);
            }
        }
    }
}

/// Where every character other than a line break takes one column, no rendered line
/// holds more characters than the width, and the cursor's column counts the characters
/// of the last line.
pub proof fn lemma_unit_width_lines(chars: Seq<char>, width: int)
    requires
        width >= 1,
        forall|k: int| 0 <= k < chars.len() && chars[k] != '\n' ==> char_columns(#[trigger] chars[k]) == 1,
    ensures
        lines_within(wrap_layout(chars, width).0, width),
        trailing_run(wrap_layout(chars, width).0) == wrap_layout(chars, width).1.last().1,
    decreases chars.len(),
{
    lemma_layout_bounds(chars, width);
    if chars.len() == 0 {
    } else {
        let init = chars.drop_last();
        let c = chars.last();
        assert(chars[chars.len() - 1] == c);
        assert forall|k: int| 0 <= k < init.len() && init[k] != '\n' implies char_columns(#[trigger] init[k]) == 1 by {
            assert(init[k] == chars[k]);
        }
        lemma_unit_width_lines(init, width);
        lemma_layout_bounds(init, width);
        let (rendered, positions) = wrap_layout(init, width);
        let (row, column) = positions.last();
        if c == '\n' {
            lemma_push_within(rendered, '\n', width);
        } else {
            assert(char_columns(c) == 1);
            lemma_push_within(rendered, c, width);
            let r2 = rendered.push(c);
            if column + 1 >= width {
                lemma_push_within(r2, '\n', width);
            }
        }
    }
}

/// A vertical cursor move, read through the cursor positions that the input layout
/// reports: where the adjacent row `delta` rows away exists, the cursor lands on it, in
/// the column closest to the current one, the earliest such position on a tie.
pub proof fn lemma_move_picks_closest_column(input: Seq<char>, cursor: int, visible_width: int, delta: int, r: int)
    requires
        input.len() < 65535,
        0 <= cursor,
        0 <= visible_width <= 65535,
        cursor_move_spec(wrap_layout(input, if visible_width < 1 { 1 } else { visible_width }).1, cursor, delta, r),
        r <= input.len(),
    ensures
        ({
            let n = input.len() as int;
            let i0 = if cursor < n { cursor } else { n };
            let row0 = input_layout_spec(input, i0, visible_width).1;
            let col0 = input_layout_spec(input, i0, visible_width).2;
            (exists|j: int| 0 <= j <= n && #[trigger] input_layout_spec(input, j, visible_width).1 == row0 + delta)
                ==> {
                    &&& 0 <= r <= n
                    &&& input_layout_spec(input, r, visible_width).1 == row0 + delta
                    &&& forall|j: int| 0 <= j <= n && #[trigger] input_layout_spec(input, j, visible_width).1 == row0 + delta
                        ==> column_distance(input_layout_spec(input, r, visible_width).2, col0)
                            <= column_distance(input_layout_spec(input, j, visible_width).2, col0)
                    &&& forall|j: int| 0 <= j < r && #[trigger] input_layout_spec(input, j, visible_width).1 == row0 + delta
                        ==> column_distance(input_layout_spec(input, r, visible_width).2, col0)
                            < column_distance(input_layout_spec(input, j, visible_width).2, col0)
                }
        }),
{
    let width = if visible_width < 1 { 1 } else { visible_width };
    let positions = wrap_layout(input, width).1;
    let n = input.len() as int;
    lemma_layout_bounds(input, width);
    lemma_positions_bounded(input, width);
    assert forall|j: int| 0 <= j <= n implies
        #[trigger] input_layout_spec(input, j, visible_width).1 == positions[j].0
        && input_layout_spec(input, j, visible_width).2 == positions[j].1 by {
        assert(capped_index(j, positions.len() as int) == j);
        assert(0 <= positions[j].0 <= j);
        assert(positions[j].1 < width);
    }
    let i0 = if cursor < n { cursor } else { n };
    assert(capped_index(cursor, positions.len() as int) == i0);
    let row0 = positions[i0].0;
    let col0 = positions[i0].1;
    if exists|j: int| 0 <= j <= n && #[trigger] input_layout_spec(input, j, visible_width).1 == row0 + delta {
        let w = choose|j: int| 0 <= j <= n && #[trigger] input_layout_spec(input, j, visible_width).1 == row0 + delta;
        assert(positions[w].0 == row0 + delta);
        assert(0 <= positions[w].0 <= w);
        assert(target_row(row0, delta) == Some(row0 + delta));
        assert(exists|j: int| 0 <= j < positions.len() && #[trigger] positions[j].0 == row0 + delta);
        assert forall|j: int| 0 <= j <= n && #[trigger] input_layout_spec(input, j, visible_width).1 == row0 + delta
            implies column_distance(input_layout_spec(input, r, visible_width).2, col0)
                <= column_distance(input_layout_spec(input, j, visible_width).2, col0) by {
            assert(positions[j].0 == row0 + delta);
        }
        assert forall|j: int| 0 <= j < r && #[trigger] input_layout_spec(input, j, visible_width).1 == row0 + delta
            implies column_distance(input_layout_spec(input, r, visible_width).2, col0)
                < column_distance(input_layout_spec(input, j, visible_width).2, col0) by {
            assert(positions[j].0 == row0 + delta);
        }
    }
}

/// Hard-wraps the text to `width` columns; returns the rendered text and the cursor
/// position after each prefix of the text.
pub fn multiline_layout(input_buffer: &str, width: usize) -> (res: (String, Vec<(usize, usize)>))
    requires
        input_buffer@.len() <= usize::MAX / 4,
    ensures
        res.0@ == wrap_layout(input_buffer@, width as int).0,
        positions_view(res.1@) == wrap_layout(input_buffer@, width as int).1,
{
    let chars = chars_of(input_buffer);
    let mut rendered = String::new();
    let mut positions: Vec<(usize, usize)> = Vec::new();
    let mut row: usize = 0;
    let mut column: usize = 0;
    positions.push((row, column));
    let n = chars.len();
    let mut i: usize = 0;
    proof {
        assert(chars@.take(0) =~= Seq::<char>::empty());
        assert(positions_view(positions@) =~= seq![(0int, 0int)]);
    }
    while i < n
        invariant
            n == chars@.len(),
            chars@ == input_buffer@,
            n <= usize::MAX / 4,
            i <= n,
            rendered@ == wrap_layout(chars@.take(i as int), width as int).0,
            positions_view(positions@) == wrap_layout(chars@.take(i as int), width as int).1,
            (row as int, column as int) == wrap_layout(chars@.take(i as int), width as int).1.last(),
            row <= 2 * i,
            width >= 1 ==> column < width,
            width == 0 ==> column == 0,
        decreases n - i,
    {
        let character = chars[i];
        proof {
            lemma_layout_bounds(chars@.take(i as int), width as int);
            assert(chars@.take(i + 1).drop_last() =~= chars@.take(i as int));
            assert(chars@.take(i + 1).last() == character);
        }
        if character == '\n' {
            push_char(&mut rendered, '\n');
            row = row + 1;
            column = 0;
        } else {
            let mut one = String::new();
            push_char(&mut one, character);
            let character_width = line_width(one.as_str());
            proof {
                assert(one@ =~= seq![character]);
            }
            if column > 0 && character_width > width - column {
                push_char(&mut rendered, '\n');
                row = row + 1;
                column = 0;
            }
            push_char(&mut rendered, character);
            column = column + character_width;
            if column >= width {
                push_char(&mut rendered, '\n');
                row = row + 1;
                column = 0;
            }
        }
        let ghost prev = positions@;
        positions.push((row, column));
        proof {
            assert(positions_view(positions@) =~= positions_view(prev).push((row as int, column as int)));
            lemma_layout_bounds(chars@.take(i + 1), width as int);
        }
        i = i + 1;
    }
    proof {
        assert(chars@.take(n as int) =~= chars@);
    }
    (rendered, positions)
}

/// The index of the position that the cursor is read at: the cursor, capped at the
/// last position.
pub open spec fn capped_index(cursor: int, count: int) -> int {
    if cursor < count - 1 { cursor } else { count - 1 }
}

/// The rendered text and cursor (row, column), each clamped to `u16`, of the wrapped
/// input; the width is at least one column.
pub open spec fn input_layout_spec(input: Seq<char>, cursor: int, visible_width: int) -> (Seq<char>, int, int) {
    let width = if visible_width < 1 { 1 } else { visible_width };
    let (rendered, positions) = wrap_layout(input, width);
    let at = positions[capped_index(cursor, positions.len() as int)];
    (rendered, clamp_u16(at.0), clamp_u16(at.1))
}

fn to_u16_saturating(v: usize) -> (r: u16)
    ensures
        r as int == clamp_u16(v as int),
{
    if v > 65535 { 65535 } else { v as u16 }
}

/// Hard-wraps multiline input and returns its rendered text plus the cursor row and
/// column.
pub fn multiline_input_layout(input_buffer: &str, cursor_position: usize, visible_width: u16) -> (res: (String, u16, u16))
    requires
        input_buffer@.len() <= usize::MAX / 4,
    ensures
        (res.0@, res.1 as int, res.2 as int) == input_layout_spec(input_buffer@, cursor_position as int, visible_width as int),
{
    let width: usize = if visible_width < 1 { 1 } else { visible_width as usize };
    let (rendered, positions) = multiline_layout(input_buffer, width);
    proof {
        lemma_layout_bounds(input_buffer@, width as int);
    }
    let last = positions.len() - 1;
    let index = if cursor_position < last { cursor_position } else { last };
    let (row, column) = positions[index];
    proof {
        assert(positions_view(positions@)[index as int] == (row as int, column as int));
    }
    (rendered, to_u16_saturating(row), to_u16_saturating(column))
}

/// The distance between two columns.
pub open spec fn column_distance(a: int, b: int) -> int {
    if a >= b { a - b } else { b - a }
}

/// The row that a vertical move by `delta` rows targets, if it exists in `usize`.
pub open spec fn target_row(row: int, delta: int) -> Option<int> {
    if row + delta < 0 || row + delta > usize::MAX { None } else { Some(row + delta) }
}

/// Where a vertical cursor move lands: the first position on the target row whose
/// column is closest to the current column, or the current (capped) index where there
/// is no such row.
pub open spec fn cursor_move_spec(positions: Seq<(int, int)>, cursor: int, delta: int, result: int) -> bool {
    let current = capped_index(cursor, positions.len() as int);
    let (row, column) = positions[current];
    match target_row(row, delta) {
        None => result == current,
        Some(target) => {
            if exists|j: int| 0 <= j < positions.len() && #[trigger] positions[j].0 == target {
                &&& 0 <= result < positions.len()
                &&& positions[result].0 == target
                &&& forall|j: int| 0 <= j < positions.len() && #[trigger] positions[j].0 == target
                        ==> column_distance(positions[result].1, column) <= column_distance(positions[j].1, column)
                &&& forall|j: int| 0 <= j < result && #[trigger] positions[j].0 == target
                        ==> column_distance(positions[result].1, column) < column_distance(positions[j].1, column)
            } else {
                result == current
            }
        }
    }
}

fn abs_diff(a: usize, b: usize) -> (d: usize)
    ensures
        d as int == column_distance(a as int, b as int),
{
    if a >= b { a - b } else { b - a }
}

/// Moves a character-index cursor to the closest column on a visually wrapped row
/// `row_delta` rows away.
pub fn move_multiline_cursor(input_buffer: &str, cursor_position: usize, visible_width: u16, row_delta: i32) -> (r: usize)
    requires
        input_buffer@.len() <= usize::MAX / 4,
    ensures
        cursor_move_spec(
            wrap_layout(input_buffer@, if visible_width < 1 { 1 } else { visible_width as int }).1,
            cursor_position as int,
            row_delta as int,
            r as int,
        ),
        r <= input_buffer@.len(),
{
    let width: usize = if visible_width < 1 { 1 } else { visible_width as usize };
    let (_, positions) = multiline_layout(input_buffer, width);
    let ghost pv = positions_view(positions@);
    proof {
        lemma_layout_bounds(input_buffer@, width as int);
    }
    let last = positions.len() - 1;
    let current_index = if cursor_position < last { cursor_position } else { last };
    let (current_row, current_column) = positions[current_index];
    assert(pv[current_index as int] == (current_row as int, current_column as int));
    let target: usize;
    if row_delta < 0 {
        let magnitude: usize = if row_delta == i32::MIN { 2147483648 } else { (-row_delta) as usize };
        if magnitude > current_row {
            return current_index;
        }
        target = current_row - magnitude;
    } else {
        let magnitude = row_delta as usize;
        if current_row > usize::MAX - magnitude {
            return current_index;
        }
        target = current_row + magnitude;
    }
    let mut best: Option<(usize, usize)> = None;
    let mut j: usize = 0;
    while j < positions.len()
        invariant
            pv == positions_view(positions@),
            j <= positions@.len(),
            match best {
                None => forall|k: int| 0 <= k < j ==> #[trigger] pv[k].0 != target,
                Some((b, d)) => {
                    &&& 0 <= b < j
                    &&& pv[b as int].0 == target
                    &&& d as int == column_distance(pv[b as int].1, current_column as int)
                    &&& forall|k: int| 0 <= k < j && #[trigger] pv[k].0 == target
                            ==> d <= column_distance(pv[k].1, current_column as int)
                    &&& forall|k: int| 0 <= k < b && #[trigger] pv[k].0 == target
                            ==> d < column_distance(pv[k].1, current_column as int)
                },
            },
        decreases positions@.len() - j,
    {
        let (row, column) = positions[j];
        assert(pv[j as int] == (row as int, column as int));
        if row == target {
            let distance = abs_diff(column, current_column);
            match best {
                None => {
                    best = Some((j, distance));
                },
                Some((_, d)) => {
                    if distance < d {
                        best = Some((j, distance));
                    }
                },
            }
        }
        j = j + 1;
    }
    match best {
        None => current_index,
        Some((b, _)) => b,
    }
}

/// The horizontal scroll offset and on-screen cursor column of a single-line input,
/// each clamped to `u16`: the cursor column is the display width of the text before
/// the cursor, and the view scrolls just far enough to keep it in the last column.
pub open spec fn viewport_spec(input: Seq<char>, cursor: int, visible_width: int) -> (int, int) {
    let prefix = if cursor < input.len() { input.take(cursor) } else { input };
    let cursor_column = line_display_width(prefix) as int;
    let last_visible = if visible_width >= 1 { visible_width - 1 } else { 0 };
    let scroll = if cursor_column > last_visible { cursor_column - last_visible } else { 0 };
    (clamp_u16(scroll), clamp_u16(cursor_column - scroll))
}

/// Returns the horizontal scroll offset and on-screen cursor column for an input.
pub fn input_viewport(input_buffer: &str, cursor_position: usize, visible_width: u16) -> (res: (u16, u16))
    ensures
        (res.0 as int, res.1 as int) == viewport_spec(input_buffer@, cursor_position as int, visible_width as int),
{
    let chars = chars_of(input_buffer);
    let mut prefix = String::new();
    let mut i: usize = 0;
    while i < chars.len() && i < cursor_position
        invariant
            chars@ == input_buffer@,
            i <= chars@.len(),
            i <= cursor_position,
            prefix@ == chars@.take(i as int),
        decreases chars@.len() - i,
    {
        push_char(&mut prefix, chars[i]);
        proof {
            assert(chars@.take(i + 1) =~= chars@.take(i as int).push(chars@[i as int]));
        }
        i = i + 1;
    }
    proof {
        if cursor_position as int >= input_buffer@.len() {
            assert(chars@.take(i as int) =~= input_buffer@);
        }
    }
    let cursor_column = line_width(prefix.as_str());
    let last_visible: usize = if visible_width >= 1 { (visible_width - 1) as usize } else { 0 };
    let scroll = if cursor_column > last_visible { cursor_column - last_visible } else { 0 };
    let visible = cursor_column - scroll;
    (to_u16_saturating(scroll), to_u16_saturating(visible))
}

/// The shortcut groups of a footer, each as (instruction, with its description, width):
/// shortcuts without a description are left out, and a shortcut whose key and
/// description do not fit on a row is shown by its key alone.
pub open spec fn footer_groups(instructions: Seq<(String, String)>, available: int) -> Seq<(usize, bool, int)>
    decreases instructions.len(),
{
    if instructions.len() == 0 {
        Seq::empty()
    } else {
        let rest = footer_groups(instructions.drop_last(), available);
        let i = (instructions.len() - 1) as usize;
        let (key, description) = instructions.last();
        if description@.len() == 0 {
            rest
        } else {
            let kw = line_display_width(key@) as int;
            let full = kw + line_display_width(description@) as int;
            if full <= available { rest.push((i, true, full)) } else { rest.push((i, false, kw)) }
        }
    }
}

/// Places one group: it goes on the current row after a separator where it fits, else
/// it starts a new row.
pub open spec fn footer_step(
    state: (Seq<Seq<(usize, bool)>>, Seq<(usize, bool)>, int),
    g: (usize, bool, int),
    separator: int,
    available: int,
) -> (Seq<Seq<(usize, bool)>>, Seq<(usize, bool)>, int) {
    let (rows, current, width) = state;
    let added = if current.len() == 0 { g.2 } else { separator + g.2 };
    if current.len() > 0 && width + added > available {
        (rows.push(current), seq![(g.0, g.1)], g.2)
    } else if current.len() > 0 {
        (rows, current.push((g.0, g.1)), width + separator + g.2)
    } else {
        (rows, current.push((g.0, g.1)), width + g.2)
    }
}

/// The rows after placing the groups in order.
pub open spec fn footer_fold(groups: Seq<(usize, bool, int)>, separator: int, available: int) -> (Seq<Seq<(usize, bool)>>, Seq<(usize, bool)>, int)
    decreases groups.len(),
{
    if groups.len() == 0 {
        (Seq::empty(), Seq::empty(), 0)
    } else {
        footer_step(footer_fold(groups.drop_last(), separator, available), groups.last(), separator, available)
    }
}

/// The rows of a responsive footer: groups kept whole where possible and moved to the
/// next row at separators; an empty footer still has one (empty) row.
pub open spec fn footer_rows(instructions: Seq<(String, String)>, visible_width: int, separator: int) -> Seq<Seq<(usize, bool)>> {
    let available = if visible_width < 1 { 1 } else { visible_width };
    let (rows, current, _) = footer_fold(footer_groups(instructions, available), separator, available);
    let all = if current.len() > 0 { rows.push(current) } else { rows };
    if all.len() == 0 { seq![Seq::empty()] } else { all }
}

/// The view of a list of rows.
pub open spec fn rows_view(rows: Seq<Vec<(usize, bool)>>) -> Seq<Seq<(usize, bool)>> {
    rows.map_values(|r: Vec<(usize, bool)>| r@)
}

/// Lays a shortcut footer out in rows that fit the width, each row a list of
/// (instruction, shown with its description); its height is the number of rows.
pub fn responsive_instruction_rows(instructions: &Vec<(String, String)>, visible_width: u16) -> (r: Vec<Vec<(usize, bool)>>)
    ensures
        rows_view(r@) == footer_rows(instructions@, visible_width as int, line_display_width(" • "@) as int),
{
    let available: usize = if visible_width < 1 { 1 } else { visible_width as usize };
    let separator = line_width(" • ");
    let ghost sep = separator as int;
    let ghost avail = available as int;
    let mut groups: Vec<(usize, bool, usize)> = Vec::new();
    let mut i: usize = 0;
    while i < instructions.len()
        invariant
            i <= instructions@.len(),
            avail == available as int,
            groups@.map_values(|g: (usize, bool, usize)| (g.0, g.1, g.2 as int)) == footer_groups(instructions@.take(i as int), avail),
        decreases instructions@.len() - i,
    {
        proof {
            assert(instructions@.take(i + 1).drop_last() =~= instructions@.take(i as int));
        }
        let ghost before = groups@;
        let description = &instructions[i].1;
        if description.as_str().unicode_len() > 0 {
            let kw = line_width(instructions[i].0.as_str());
            let dw = line_width(description.as_str());
            if dw <= available && kw <= available - dw {
                groups.push((i, true, kw + dw));
            } else {
                groups.push((i, false, kw));
            }
            assert(groups@.map_values(|g: (usize, bool, usize)| (g.0, g.1, g.2 as int))
                =~= before.map_values(|g: (usize, bool, usize)| (g.0, g.1, g.2 as int)).push(
                    (groups@.last().0, groups@.last().1, groups@.last().2 as int)));
        }
        i = i + 1;
    }
    assert(instructions@.take(i as int) =~= instructions@);
    let ghost gs = footer_groups(instructions@, avail);
    let mut rows: Vec<Vec<(usize, bool)>> = Vec::new();
    let mut current: Vec<(usize, bool)> = Vec::new();
    let mut width: usize = 0;
    let mut k: usize = 0;
    while k < groups.len()
        invariant
            k <= groups@.len(),
            gs == groups@.map_values(|g: (usize, bool, usize)| (g.0, g.1, g.2 as int)),
            sep == separator as int,
            avail == available as int,
            (rows_view(rows@), current@, width as int) == footer_fold(gs.take(k as int), sep, avail),
        decreases groups@.len() - k,
    {
        proof {
            assert(gs.take(k + 1).drop_last() =~= gs.take(k as int));
            assert(gs[k as int] == (groups@[k as int].0, groups@[k as int].1, groups@[k as int].2 as int));
        }
        let (gi, gfull, gw) = groups[k];
        let closes = current.len() > 0 && (width > available || separator > available - width || gw > available - width - separator);
        let ghost old_rows = rows@;
        let ghost old_cur = current@;
        if closes {
            let mut row: Vec<(usize, bool)> = Vec::new();
            std::mem::swap(&mut row, &mut current);
            rows.push(row);
            current.push((gi, gfull));
            width = gw;
            proof {
                assert(rows@.last()@ == old_cur);
                assert(rows_view(rows@) =~= rows_view(old_rows).push(old_cur));
                assert(current@ =~= seq![(gi, gfull)]);
            }
        } else if current.len() > 0 {
            current.push((gi, gfull));
            width = width + separator + gw;
        } else {
            current.push((gi, gfull));
            width = width + gw;
        }
        k = k + 1;
    }
    assert(gs.take(k as int) =~= gs);
    let ghost folded_rows = rows_view(rows@);
    if current.len() > 0 {
        let ghost cur = current@;
        rows.push(current);
        assert(rows_view(rows@) =~= folded_rows.push(cur));
    }
    if rows.len() == 0 {
        rows.push(Vec::new());
        assert(rows_view(rows@) =~= seq![Seq::<(usize, bool)>::empty()]);
    }
    rows
}

} // verus!
