//! Projections of the canvas onto a terminal with 24-bit color.
//!
//! The half-block projection is plain text with escape sequences: one
//! character cell shows two pixels, one above the other, as an upper half
//! block whose foreground is the upper pixel and whose background is the lower
//! one.
//!
//! The block projection is a list of colored runs for a text user interface:
//! one text row per pixel row, each pixel two full blocks wide.

use crate::canvas::{Canvas, Color, Grid};
use crate::session::Point;
use vstd::prelude::*;
use vstd::string::StringExecFns;

verus! {

/// The number of terminal columns that one pixel takes in the block
/// projection.
pub const PIXEL_COLUMNS: u16 = 2;

/// A run of text in one foreground color. Without a color the run is in the
/// terminal's own foreground color.
#[derive(Clone, Copy, Debug, PartialEq, Eq)]
pub struct Run {
    pub text: &'static str,
    pub foreground: Option<Color>,
}

/// The run that shows one pixel: two full blocks in the pixel's color.
pub open spec fn pixel_run(color: Color) -> Run {
    Run { text: "\u{2588}\u{2588}", foreground: Some(color) }
}

/// The empty run that ends a line and gives the terminal its own color back.
pub open spec fn reset_run() -> Run {
    Run { text: "", foreground: None }
}

/// The runs of one pixel row: one run per pixel, left to right, and the
/// reset run.
pub open spec fn line_runs(grid: Grid, row: int) -> Seq<Run> {
    Seq::new(
        grid.width + 1,
        |col: int|
            if col < grid.width {
                pixel_run(grid.at(col, row))
            } else {
                reset_run()
            },
    )
}

/// In the block projection, the terminal cell at `column` of `row` lies in
/// the run of the pixel that `pixel_under` names: the runs before it take two
/// columns each.
pub proof fn lemma_cell_shows_pixel(grid: Grid, column: u16, row: u16)
    requires
        grid.contains(column as int / 2, row as int),
    ensures
        line_runs(grid, row as int)[column as int / 2] == pixel_run(
            grid.at(column as int / 2, row as int),
        ),
        forall|color: Color| #[trigger] pixel_run(color).text@.len() == PIXEL_COLUMNS,
{
    reveal_strlit("\u{2588}\u{2588}");
}

/// The pixel that the block projection shows at a terminal cell.
pub fn pixel_under(column: u16, row: u16) -> (at: Point)
    ensures
        at.x == column / PIXEL_COLUMNS,
        at.y == row,
{
    Point { x: (column / PIXEL_COLUMNS) as i32, y: row as i32 }
}

/// The text of one decimal digit.
pub open spec fn digit_text(digit: int) -> Seq<char> {
    if digit == 0 {
        "0"@
    } else if digit == 1 {
        "1"@
    } else if digit == 2 {
        "2"@
    } else if digit == 3 {
        "3"@
    } else if digit == 4 {
        "4"@
    } else if digit == 5 {
        "5"@
    } else if digit == 6 {
        "6"@
    } else if digit == 7 {
        "7"@
    } else if digit == 8 {
        "8"@
    } else {
        "9"@
    }
}

/// A byte in decimal, without leading zeros.
pub open spec fn decimal_text(value: u8) -> Seq<char> {
    let n = value as int;
    if n < 10 {
        digit_text(n)
    } else if n < 100 {
        digit_text(n / 10) + digit_text(n % 10)
    } else {
        digit_text(n / 100) + digit_text(n / 10 % 10) + digit_text(n % 10)
    }
}

/// A color as the three parameters of a color escape sequence.
pub open spec fn color_text(color: Color) -> Seq<char> {
    decimal_text(color[0]) + ";"@ + decimal_text(color[1]) + ";"@ + decimal_text(color[2])
}

/// One character cell: the escape sequence that sets the foreground to
/// `top`, the one that sets the background to `bottom`, and an upper half
/// block.
pub open spec fn cell_text(top: Color, bottom: Color) -> Seq<char> {
    "\x1b[38;2;"@ + color_text(top) + "m\x1b[48;2;"@ + color_text(bottom) + "m\u{2580}"@
}

/// The first `cells` character cells of text row `row`, which shows the
/// pixel rows `2 * row` and `2 * row + 1`.
pub open spec fn row_text(grid: Grid, row: int, cells: int) -> Seq<char>
    decreases cells,
{
    if cells <= 0 {
        Seq::empty()
    } else {
        row_text(grid, row, cells - 1) + cell_text(
            grid.at(cells - 1, 2 * row),
            grid.at(cells - 1, 2 * row + 1),
        )
    }
}

/// The first `rows` text rows, each ended by a color reset and a line feed.
pub open spec fn rows_text(grid: Grid, rows: int) -> Seq<char>
    decreases rows,
{
    if rows <= 0 {
        Seq::empty()
    } else {
        rows_text(grid, rows - 1) + row_text(grid, rows - 1, grid.width as int) + "\x1b[0m\n"@
    }
}

/// The whole canvas as text: one text row for every two pixel rows. Where the
/// height is odd, the last text row shows white below its pixels.
pub open spec fn rendering(grid: Grid) -> Seq<char> {
    rows_text(grid, (grid.height as int + 1) / 2)
}

/// The text of a digit.
fn digit_str(digit: u8) -> (text: &'static str)
    requires
        digit < 10,
    ensures
        text@ == digit_text(digit as int),
{
    if digit == 0 {
        "0"
    } else if digit == 1 {
        "1"
    } else if digit == 2 {
        "2"
    } else if digit == 3 {
        "3"
    } else if digit == 4 {
        "4"
    } else if digit == 5 {
        "5"
    } else if digit == 6 {
        "6"
    } else if digit == 7 {
        "7"
    } else if digit == 8 {
        "8"
    } else {
        "9"
    }
}

/// Appends a byte in decimal.
fn push_decimal(out: &mut String, value: u8)
    ensures
        final(out)@ == old(out)@ + decimal_text(value),
{
    if value >= 100 {
        out.append(digit_str(value / 100));
    }
    if value >= 10 {
        out.append(digit_str(value / 10 % 10));
    }
    out.append(digit_str(value % 10));
    assert(out@ =~= old(out)@ + decimal_text(value));
}

/// Appends the three parameters of a color escape sequence.
fn push_color(out: &mut String, color: Color)
    ensures
        final(out)@ == old(out)@ + color_text(color),
{
    push_decimal(out, color[0]);
    out.append(";");
    push_decimal(out, color[1]);
    out.append(";");
    push_decimal(out, color[2]);
    assert(out@ =~= old(out)@ + color_text(color));
}

impl Canvas {
    /// Renders the canvas as colored runs, one line per pixel row: a run of
    /// two full blocks for every pixel, and an empty run in the terminal's own
    /// color at the end of each line.
    pub fn render_to_spans(&self) -> (lines: Vec<Vec<Run>>)
        ensures
            lines@.len() == self@.height,
            forall|row: int|
                0 <= row < self@.height ==> (#[trigger] lines@[row])@ == line_runs(self@, row),
    {
        let width = self.width();
        let height = self.height();
        let mut lines: Vec<Vec<Run>> = Vec::new();
        let mut row: usize = 0;
        while row < height
            invariant
                row <= height,
                width == self@.width,
                height == self@.height,
                lines@.len() == row,
                forall|r: int| 0 <= r < row ==> (#[trigger] lines@[r])@ == line_runs(self@, r),
            decreases height - row,
        {
            let mut spans: Vec<Run> = Vec::new();
            let mut col: usize = 0;
            while col < width
                invariant
                    col <= width,
                    row < height,
                    width == self@.width,
                    height == self@.height,
                    spans@ == line_runs(self@, row as int).take(col as int),
                decreases width - col,
            {
                let color = self.get_pixel(col, row);
                spans.push(Run { text: "\u{2588}\u{2588}", foreground: Some(color) });
                proof {
                    assert(spans@ =~= line_runs(self@, row as int).take(col + 1));
                }
                col += 1;
            }
            spans.push(Run { text: "", foreground: None });
            proof {
                assert(spans@ =~= line_runs(self@, row as int));
            }
            lines.push(spans);
            row += 1;
        }
        lines
    }

    /// Renders the canvas as text with color escape sequences, two pixel
    /// rows per text row.
    pub fn render_to_string(&self) -> (output: String)
        ensures
            output@ == rendering(self@),
    {
        let mut output = String::new();
        let width = self.width();
        let height = self.height();
        let rows = height / 2 + height % 2;

        let mut row: usize = 0;
        while row < rows
            invariant
                row <= rows,
                rows == (height + 1) / 2,
                width == self@.width,
                height == self@.height,
                output@ == rows_text(self@, row as int),
            decreases rows - row,
        {
            let ghost above = output@;
            let mut col: usize = 0;
            while col < width
                invariant
                    col <= width,
                    row < rows,
                    rows == (height + 1) / 2,
                    width == self@.width,
                    height == self@.height,
                    output@ == above + row_text(self@, row as int, col as int),
                decreases width - col,
            {
                let top_y = row * 2;
                let bottom_y = top_y + 1;
                let top_color = self.get_pixel(col, top_y);
                let bottom_color = self.get_pixel(col, bottom_y);

                let ghost before = output@;
                output.append("\x1b[38;2;");
                push_color(&mut output, top_color);
                output.append("m\x1b[48;2;");
                push_color(&mut output, bottom_color);
                output.append("m\u{2580}");
                proof {
                    assert(output@ =~= before + cell_text(top_color, bottom_color));
                    assert(output@ =~= above + row_text(self@, row as int, col + 1));
                }
                col += 1;
            }
            output.append("\x1b[0m\n");
            proof {
                assert(output@ =~= rows_text(self@, row + 1));
            }
            row += 1;
        }
        output
    }
}

} // verus!
