//! Borderless rows of aligned cells, measured in bytes.
use crate::utils::format::{aligned, hidden_chars, minus, count_hidden, write_aligned};
pub use crate::utils::format::{Alignment, StringWriter};
use vstd::prelude::*;
use vstd::string::StringExecFns;

verus! {

/// The layout of a table.
#[derive(Debug)]
pub struct TableConfig {
    /// The width of each column.
    pub col_width: Vec<usize>,
    /// The padding to the left and to the right of each cell.
    pub padding: (usize, usize),
    pub align: Alignment,
}

impl TableConfig {
    pub fn new(col_width: Vec<usize>, padding: (usize, usize), align: Alignment) -> (r: TableConfig)
        ensures
            r.col_width@ == col_width@,
            r.padding == padding,
            r.align == align,
    {
        TableConfig { col_width, padding, align }
    }
}

/// The width that `text` is given: its length in bytes, less the
/// characters of its ANSI color sequences.
pub open spec fn byte_display_width(text: &str) -> nat {
    minus(text.len() as nat, hidden_chars(text@))
}

/// The cells of a row, side by side: each value aligned in its column,
/// widened by `extra` and by both paddings.
pub open spec fn row_cells(
    values: Seq<&str>,
    widths: Seq<usize>,
    padding: (usize, usize),
    align: Alignment,
    extra: nat,
) -> Seq<char>
    decreases values.len(),
{
    if values.len() == 0 || widths.len() < values.len() {
        seq![]
    } else {
        let k = values.len() - 1;
        row_cells(values.take(k), widths, padding, align, extra) + aligned(
            values[k]@,
            byte_display_width(values[k]),
            (widths[k] + extra + padding.0 + padding.1) as nat,
            align,
        )
    }
}

/// Every column width, widened by `extra` and both paddings, fits in a
/// `usize`.
pub open spec fn row_widths_fit(widths: Seq<usize>, padding: (usize, usize), extra: nat) -> bool {
    forall|i: int|
        0 <= i < widths.len() ==> #[trigger] widths[i] + extra + padding.0 + padding.1 <= usize::MAX
}

/// Renders rows of a fixed layout.
#[derive(Debug)]
pub struct Table {
    config: TableConfig,
}

/// The columns of colored cells are two wider, for the escape characters
/// that have no width.
pub open spec fn color_extra(colored: bool) -> nat {
    if colored { 2 } else { 0 }
}

impl Table {
    /// The layout of the table.
    pub closed spec fn layout(&self) -> (Seq<usize>, (usize, usize), Alignment) {
        (self.config.col_width@, self.config.padding, self.config.align)
    }

    pub fn new(config: TableConfig) -> (r: Table)
        ensures
            r.layout() == (config.col_width@, config.padding, config.align),
    {
        Table { config }
    }

    /// The width given to `text`: its length in bytes, not counting ANSI
    /// color sequences.
    pub fn display_width(text: &str) -> (r: usize)
        ensures
            r == byte_display_width(text),
    {
        let width = text.len();
        let hidden = count_hidden(text);
        if width >= hidden {
            width - hidden
        } else {
            0
        }
    }

    /// One row: `values` aligned in the columns of the layout, side by side,
    /// without a newline. Cells of `colored` values (already wrapped in
    /// color sequences) get two more columns.
    pub fn render(&self, values: Vec<&str>, colored: bool) -> (r: String)
        requires
            values@.len() == self.layout().0.len(),
            row_widths_fit(self.layout().0, self.layout().1, color_extra(colored)),
        ensures
            r@ == row_cells(values@, self.layout().0, self.layout().1, self.layout().2, color_extra(colored)),
    {
        let extra: usize = if colored { 2 } else { 0 };
        let padding = self.config.padding;
        let align = self.config.align;
        let mut out = StringWriter::new();
        let mut i: usize = 0;
        while i < values.len()
            invariant
                values@.len() == self.config.col_width@.len(),
                extra == color_extra(colored),
                padding == self.config.padding,
                align == self.config.align,
                row_widths_fit(self.config.col_width@, padding, extra as nat),
                i <= values@.len(),
                out@ == row_cells(values@.take(i as int), self.config.col_width@, padding, align, extra as nat),
            decreases values@.len() - i,
        {
            let v = values[i];
            let w = self.config.col_width[i];
            write_aligned(&mut out, align, v, Table::display_width(v), w + extra + padding.0 + padding.1);
            proof {
                let next = values@.take(i + 1);
                assert(next.take(i as int) =~= values@.take(i as int));
                assert(next[i as int] == v);
            }
            i = i + 1;
        }
        assert(values@.take(i as int) =~= values@);
        String::from_str(out.as_string())
    }
}

} // verus!
