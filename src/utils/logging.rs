//! The row logger of training reports: a [`Table`] under another name.
use crate::utils::prettytable::{byte_display_width, color_extra, row_cells, row_widths_fit, Table};
pub use crate::utils::prettytable::{Alignment, StringWriter, TableConfig};
use vstd::prelude::*;

verus! {

/// Renders the rows of a training report.
#[derive(Debug)]
pub struct TableLogger {
    table: Table,
}

impl TableLogger {
    /// The layout of the rows.
    pub closed spec fn layout(&self) -> (Seq<usize>, (usize, usize), Alignment) {
        self.table.layout()
    }

    pub fn new(config: TableConfig) -> (r: TableLogger)
        ensures
            r.layout() == (config.col_width@, config.padding, config.align),
    {
        TableLogger { table: Table::new(config) }
    }

    /// The width given to `text`: its length in bytes, not counting ANSI
    /// color sequences.
    pub fn display_width(text: &str) -> (r: usize)
        ensures
            r == byte_display_width(text),
    {
        Table::display_width(text)
    }

    /// One row of `values`, as [`Table::render`] lays it out.
    pub fn log(&self, values: Vec<&str>, colored: bool) -> (r: String)
        requires
            values@.len() == self.layout().0.len(),
            row_widths_fit(self.layout().0, self.layout().1, color_extra(colored)),
        ensures
            r@ == row_cells(values@, self.layout().0, self.layout().1, self.layout().2, color_extra(colored)),
    {
        self.table.render(values, colored)
    }
}

} // verus!
