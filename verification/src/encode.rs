//! The row encoder: two pixel rows become one line of text. The upper pixel of
//! a column sets the background of its cell, the lower pixel colours a lower
//! half block in front of it.

use vstd::prelude::*;
use crate::ansi::{
    decimal, push_decimal, ANSI_BG_RGB_CLOSE, ANSI_BG_RGB_OPEN, ANSI_BG_TRANSPARENT_COLOR,
    ANSI_FG_RGB_CLOSE, ANSI_FG_RGB_OPEN, ANSI_FG_TRANSPARENT_COLOR, ANSI_RESET, ANSI_SEPARATOR,
    LINE_BREAK,
};
use crate::frame::{ImageFrame, Raster};

verus! {

/// Alpha values below this one count as transparent.
pub const ALPHA_THRESHOLD: u8 = 128;

/// Red, green and blue in base ten with separators between them.
pub open spec fn rgb_text(p: (u8, u8, u8, u8)) -> Seq<char> {
    decimal(p.0 as nat) + ANSI_SEPARATOR@ + decimal(p.1 as nat) + ANSI_SEPARATOR@ + decimal(
        p.2 as nat,
    )
}

/// What the upper pixel of a cell contributes: the background of the cell.
pub open spec fn upper_cell(p: (u8, u8, u8, u8)) -> Seq<char> {
    if p.3 < ALPHA_THRESHOLD {
        ANSI_BG_TRANSPARENT_COLOR@
    } else {
        ANSI_BG_RGB_OPEN@ + rgb_text(p) + ANSI_BG_RGB_CLOSE@
    }
}

/// What the lower pixel of a cell contributes: the glyph and its colour.
pub open spec fn lower_cell(p: (u8, u8, u8, u8)) -> Seq<char> {
    if p.3 < ALPHA_THRESHOLD {
        ANSI_FG_TRANSPARENT_COLOR@
    } else {
        ANSI_FG_RGB_OPEN@ + rgb_text(p) + ANSI_FG_RGB_CLOSE@
    }
}

/// The text of the cell in column `x` of the row pair `row`.
pub open spec fn cell(raster: Raster, row: int, x: int) -> Seq<char> {
    upper_cell(raster.pixel(x, 2 * row)) + lower_cell(raster.pixel(x, 2 * row + 1))
}

/// The cells of the first `n` columns of the row pair `row`, left to right.
pub open spec fn row_cells(raster: Raster, row: int, n: nat) -> Seq<char>
    decreases n,
{
    if n == 0 {
        Seq::empty()
    } else {
        row_cells(raster, row, (n - 1) as nat) + cell(raster, row, n - 1)
    }
}

/// The whole line of the row pair `row`: every cell, a style reset, a line break.
pub open spec fn row_line(raster: Raster, row: int) -> Seq<char> {
    row_cells(raster, row, raster.width) + ANSI_RESET@ + LINE_BREAK@
}

/// The encoded frame: the lines of its row pairs from top to bottom. A last
/// row without a partner is left out.
pub open spec fn encoded(raster: Raster) -> Seq<Seq<char>> {
    Seq::new(raster.row_pairs(), |row: int| row_line(raster, row))
}

/// The texts of a sequence of strings.
pub open spec fn texts(lines: Seq<String>) -> Seq<Seq<char>> {
    Seq::new(lines.len(), |i: int| lines[i]@)
}

/// Appends red, green and blue of a pixel to `out`.
fn push_rgb(out: &mut String, p: (u8, u8, u8, u8))
    ensures
        final(out)@ == old(out)@ + rgb_text(p),
{
    push_decimal(out, p.0 as u64);
    out.append(ANSI_SEPARATOR);
    push_decimal(out, p.1 as u64);
    out.append(ANSI_SEPARATOR);
    push_decimal(out, p.2 as u64);
    assert(out@ =~= old(out)@ + rgb_text(p));
}

/// Appends the background directive of an upper pixel to `out`.
pub fn push_upper(out: &mut String, p: (u8, u8, u8, u8))
    ensures
        final(out)@ == old(out)@ + upper_cell(p),
{
    if p.3 < ALPHA_THRESHOLD {
        out.append(ANSI_BG_TRANSPARENT_COLOR);
    } else {
        out.append(ANSI_BG_RGB_OPEN);
        push_rgb(out, p);
        out.append(ANSI_BG_RGB_CLOSE);
        assert(out@ =~= old(out)@ + upper_cell(p));
    }
}

/// Appends the foreground directive and glyph of a lower pixel to `out`.
pub fn push_lower(out: &mut String, p: (u8, u8, u8, u8))
    ensures
        final(out)@ == old(out)@ + lower_cell(p),
{
    if p.3 < ALPHA_THRESHOLD {
        out.append(ANSI_FG_TRANSPARENT_COLOR);
    } else {
        out.append(ANSI_FG_RGB_OPEN);
        push_rgb(out, p);
        out.append(ANSI_FG_RGB_CLOSE);
        assert(out@ =~= old(out)@ + lower_cell(p));
    }
}

/// Encodes the row pair `row` of a frame: pixel rows `2 * row` and `2 * row + 1`.
/// This is the unit of work that can be handed out, one per row pair.
pub fn encode_row(frame: &ImageFrame, row: u32) -> (line: String)
    requires
        2 * row + 1 < frame@.height,
    ensures
        line@ == row_line(frame@, row as int),
{
    let (width, _height) = frame.dimensions();
    let upper: u32 = 2 * row;
    let lower: u32 = upper + 1;
    let mut line = String::new();
    let mut x: u32 = 0;
    while x < width
        invariant
            x <= width,
            width == frame@.width,
            upper == 2 * row,
            lower == 2 * row + 1,
            lower < frame@.height,
            line@ == row_cells(frame@, row as int, x as nat),
        decreases width - x,
    {
        let ghost before = line@;
        push_upper(&mut line, frame.get_pixel_rgba(x, upper));
        push_lower(&mut line, frame.get_pixel_rgba(x, lower));
        assert(line@ =~= before + cell(frame@, row as int, x as int));
        x = x + 1;
    }
    line.append(ANSI_RESET);
    line.append(LINE_BREAK);
    line
}

/// Encodes a frame: one line per row pair, in order from the top.
pub fn escape_frame(frame: &ImageFrame) -> (lines: Vec<String>)
    ensures
        texts(lines@) == encoded(frame@),
        lines@.len() == frame@.height / 2,
{
    let (_width, height) = frame.dimensions();
    let rows: u32 = height / 2;
    let mut lines: Vec<String> = Vec::new();
    let mut row: u32 = 0;
    while row < rows
        invariant
            row <= rows,
            rows == frame@.height / 2,
            lines@.len() == row,
            forall|i: int| 0 <= i < row ==> (#[trigger] lines@[i])@ == row_line(frame@, i),
        decreases rows - row,
    {
        let line = encode_row(frame, row);
        lines.push(line);
        row = row + 1;
    }
    assert(texts(lines@) =~= encoded(frame@));
    lines
}

/// Encodes every frame of a sequence, keeping the order of the frames.
pub fn escape_frames(frames: Vec<ImageFrame>) -> (escaped: Vec<Vec<String>>)
    ensures
        escaped@.len() == frames@.len(),
        forall|i: int|
            0 <= i < frames@.len() ==> texts((#[trigger] escaped@[i])@) == encoded(frames@[i]@),
{
    let mut escaped: Vec<Vec<String>> = Vec::new();
    let mut i: usize = 0;
    while i < frames.len()
        invariant
            i <= frames@.len(),
            escaped@.len() == i,
            forall|k: int|
                0 <= k < i ==> texts((#[trigger] escaped@[k])@) == encoded(frames@[k]@),
        decreases frames@.len() - i,
    {
        let lines = escape_frame(&frames[i]);
        escaped.push(lines);
        i = i + 1;
    }
    escaped
}

/// The lines that are put together from finished units of work. Each unit is
/// the index of a row pair and its line; a later unit replaces an earlier one
/// with the same index, and a row pair that no unit names stays empty.
pub open spec fn assembled(count: nat, parts: Seq<(usize, String)>) -> Seq<Seq<char>>
    decreases parts.len(),
{
    if parts.len() == 0 {
        Seq::new(count, |i: int| Seq::<char>::empty())
    } else {
        assembled(count, parts.drop_last()).update(parts.last().0 as int, parts.last().1@)
    }
}

/// Puts the lines of a frame in the order of their row pairs, whatever the
/// order in which the units of work were finished.
pub fn assemble_lines(count: usize, parts: Vec<(usize, String)>) -> (lines: Vec<String>)
    requires
        forall|k: int| 0 <= k < parts@.len() ==> (#[trigger] parts@[k]).0 < count,
    ensures
        texts(lines@) == assembled(count as nat, parts@),
        lines@.len() == count,
{
    let mut lines: Vec<String> = Vec::new();
    let mut i: usize = 0;
    while i < count
        invariant
            i <= count,
            lines@.len() == i,
            forall|j: int| 0 <= j < i ==> (#[trigger] lines@[j])@ == Seq::<char>::empty(),
        decreases count - i,
    {
        lines.push(String::new());
        i = i + 1;
    }
    assert(texts(lines@) =~= assembled(count as nat, parts@.take(0)));
    let mut k: usize = 0;
    while k < parts.len()
        invariant
            k <= parts@.len(),
            lines@.len() == count,
            forall|j: int| 0 <= j < parts@.len() ==> (#[trigger] parts@[j]).0 < count,
            texts(lines@) == assembled(count as nat, parts@.take(k as int)),
        decreases parts@.len() - k,
    {
        let ghost before = lines@;
        let index: usize = parts[k].0;
        let line: String = parts[k].1.clone();
        lines.set(index, line);
        proof {
            let next = parts@.take(k + 1);
            assert(next.drop_last() =~= parts@.take(k as int));
            assert(next.last() == parts@[k as int]);
            assert(texts(lines@) =~= texts(before).update(index as int, parts@[k as int].1@));
        }
        k = k + 1;
    }
    assert(parts@.take(k as int) =~= parts@);
    lines
}

/// Some unit of work in `parts` names the row pair `i`.
pub open spec fn names_row(parts: Seq<(usize, String)>, i: int) -> bool {
    exists|k: int| 0 <= k < parts.len() && (#[trigger] parts[k]).0 == i
}

/// What assembling leaves at each index: the line of that row pair where a
/// unit names it, nothing where none does.
proof fn lemma_assembled_entries(count: nat, parts: Seq<(usize, String)>, lines: Seq<Seq<char>>)
    requires
        lines.len() == count,
        forall|k: int|
            0 <= k < parts.len() ==> (#[trigger] parts[k]).0 < count && parts[k].1@
                == lines[parts[k].0 as int],
    ensures
        assembled(count, parts).len() == count,
        forall|i: int|
            0 <= i < count ==> #[trigger] assembled(count, parts)[i] == if names_row(parts, i) {
                lines[i]
            } else {
                Seq::<char>::empty()
            },
    decreases parts.len(),
{
    if parts.len() > 0 {
        let rest = parts.drop_last();
        let last = parts.last();
        lemma_assembled_entries(count, rest, lines);
        assert forall|i: int| 0 <= i < count implies #[trigger] assembled(count, parts)[i]
            == if names_row(parts, i) {
            lines[i]
        } else {
            Seq::<char>::empty()
        } by {
            if last.0 == i {
                assert(parts[parts.len() - 1].0 == i);
            } else {
                if names_row(rest, i) {
                    let k = choose|k: int| 0 <= k < rest.len() && (#[trigger] rest[k]).0 == i;
                    assert(parts[k].0 == i);
                }
                if names_row(parts, i) {
                    let k = choose|k: int| 0 <= k < parts.len() && (#[trigger] parts[k]).0 == i;
                    assert(rest[k].0 == i);
                }
            }
        }
    }
}

/// Encoding in parallel gives what encoding in order gives. Where every unit
/// of work carries the line of the row pair that it names, and every row pair
/// of the frame is named by some unit, assembling the units yields the encoded
/// frame, in whatever order and however often the units arrive.
pub proof fn lemma_assembly_ignores_order(raster: Raster, parts: Seq<(usize, String)>)
    requires
        forall|k: int|
            0 <= k < parts.len() ==> (#[trigger] parts[k]).0 < raster.row_pairs() && parts[k].1@
                == row_line(raster, parts[k].0 as int),
        forall|i: int| 0 <= i < raster.row_pairs() ==> #[trigger] names_row(parts, i),
    ensures
        assembled(raster.row_pairs(), parts) == encoded(raster),
        encoded(raster).len() == raster.height / 2,
{
    lemma_assembled_entries(raster.row_pairs(), parts, encoded(raster));
    assert(assembled(raster.row_pairs(), parts) =~= encoded(raster));
}

/// `piece` stands in `text` from position `at` on.
pub open spec fn occurs_at(text: Seq<char>, piece: Seq<char>, at: int) -> bool {
    0 <= at && at + piece.len() <= text.len() && text.subrange(at, at + piece.len()) == piece
}

/// `piece` stands somewhere in `text`.
pub open spec fn occurs_in(text: Seq<char>, piece: Seq<char>) -> bool {
    exists|at: int| occurs_at(text, piece, at)
}

/// Where the cell of column `x` begins in the line of the row pair `row`.
pub open spec fn cell_start(raster: Raster, row: int, x: int) -> int {
    row_cells(raster, row, x as nat).len() as int
}

/// The cells of the first columns open the cells of more columns.
proof fn lemma_row_cells_prefix(raster: Raster, row: int, n: nat, m: nat)
    requires
        n <= m,
    ensures
        row_cells(raster, row, n).len() <= row_cells(raster, row, m).len(),
        row_cells(raster, row, m).subrange(0, row_cells(raster, row, n).len() as int)
            == row_cells(raster, row, n),
    decreases m,
{
    if n < m {
        lemma_row_cells_prefix(raster, row, n, (m - 1) as nat);
        assert(row_cells(raster, row, m).subrange(0, row_cells(raster, row, n).len() as int)
            =~= row_cells(raster, row, n));
    } else {
        assert(row_cells(raster, row, m).subrange(0, row_cells(raster, row, n).len() as int)
            =~= row_cells(raster, row, n));
    }
}

/// Every column of a row pair has its place in the line: the directive of its
/// upper pixel stands right after the cells of the columns to its left, and
/// the directive of its lower pixel follows it at once.
pub proof fn lemma_cells_occur_in_line(raster: Raster, row: int, x: int)
    requires
        0 <= x < raster.width,
        0 <= row < raster.row_pairs(),
    ensures
        occurs_at(
            row_line(raster, row),
            upper_cell(raster.pixel(x, 2 * row)),
            cell_start(raster, row, x),
        ),
        occurs_at(
            row_line(raster, row),
            lower_cell(raster.pixel(x, 2 * row + 1)),
            cell_start(raster, row, x) + upper_cell(raster.pixel(x, 2 * row)).len(),
        ),
        occurs_in(row_line(raster, row), upper_cell(raster.pixel(x, 2 * row))),
        occurs_in(row_line(raster, row), lower_cell(raster.pixel(x, 2 * row + 1))),
{
    let line = row_line(raster, row);
    let left = row_cells(raster, row, x as nat);
    let through = row_cells(raster, row, (x + 1) as nat);
    let upper = upper_cell(raster.pixel(x, 2 * row));
    let lower = lower_cell(raster.pixel(x, 2 * row + 1));
    lemma_row_cells_prefix(raster, row, (x + 1) as nat, raster.width);
    assert(through =~= left + upper + lower);
    assert(line.subrange(0, through.len() as int) =~= through);
    let start = cell_start(raster, row, x);
    let middle = start + upper.len();
    let head = line.subrange(0, through.len() as int);
    assert forall|j: int| 0 <= j < through.len() implies line[j] == through[j] by {
        assert(head[j] == line[j]);
    }
    assert forall|j: int| 0 <= j < upper.len() implies line.subrange(start, middle)[j]
        == upper[j] by {
        assert(through[start + j] == upper[j]);
    }
    assert forall|j: int| 0 <= j < lower.len() implies line.subrange(
        middle,
        middle + lower.len(),
    )[j] == lower[j] by {
        assert(through[middle + j] == lower[j]);
    }
    assert(line.subrange(start, middle) =~= upper);
    assert(line.subrange(middle, middle + lower.len()) =~= lower);
    assert(occurs_at(line, upper, start));
    assert(occurs_at(line, lower, middle));
}

/// A transparent pixel never shows its colour: as an upper pixel it leaves the
/// terminal's own background, as a lower pixel a space in plain styling.
pub proof fn lemma_transparent_cells(p: (u8, u8, u8, u8))
    requires
        p.3 < 128,
    ensures
        upper_cell(p) == "\x1b[0;39;49m"@,
        lower_cell(p) == "\x1b[0m "@,
{
}

/// An opaque pixel of pure red is written with its three channels in base ten.
pub proof fn lemma_opaque_red_cells(alpha: u8)
    requires
        alpha >= 128,
    ensures
        upper_cell((255, 0, 0, alpha)) == "\x1b[48;2;255;0;0m"@,
        lower_cell((255, 0, 0, alpha)) == "\x1b[38;2;255;0;0m\u{2584}"@,
{
    reveal_with_fuel(decimal, 3);
    reveal_strlit("\x1b[48;2;");
    reveal_strlit("\x1b[38;2;");
    reveal_strlit(";");
    reveal_strlit("m");
    reveal_strlit("m\u{2584}");
    reveal_strlit("\x1b[48;2;255;0;0m");
    reveal_strlit("\x1b[38;2;255;0;0m\u{2584}");
    assert(decimal(255) =~= seq!['2', '5', '5']);
    assert(decimal(0) =~= seq!['0']);
    assert(upper_cell((255, 0, 0, alpha)) =~= "\x1b[48;2;255;0;0m"@);
    assert(lower_cell((255, 0, 0, alpha)) =~= "\x1b[38;2;255;0;0m\u{2584}"@);
}

} // verus!
