//! Bordered text tables: separator lines and rows of aligned cells, measured
//! by their display width on a terminal.
use crate::error::LtrError;
use crate::text::{push_char, push_repeated, repeat_char};
use unicode_width::UnicodeWidthStr;
use vstd::prelude::*;
use vstd::string::{StrSliceExecFns, StringExecFns};

verus! {

/// The display width in terminal columns of a string, as Unicode Standard
/// Annex #11 gives it (ambiguous characters one column wide).
pub uninterp spec fn unicode_width(s: Seq<char>) -> nat;

/// Relies on `unicode_width::UnicodeWidthStr::width`: the display width of
/// a string, which depends on its characters alone.
#[verifier::external_body]
fn str_width(s: &str) -> (r: usize)
    ensures
        r == unicode_width(s@),
{
    UnicodeWidthStr::width(s)
}

/// Alignment of a cell's text within its column.
#[derive(Debug, Clone, Copy, PartialEq, Eq, Hash, Structural)]
pub enum Alignment {
    Left,
    Right,
    Center,
}

/// One step of the recognizer of ANSI color sequences (`ESC [ ... m`).
pub open spec fn escape_next(state: nat, c: char) -> nat {
    if state == 0 && c == '\u{1b}' {
        1
    } else if state == 1 && c == '[' {
        2
    } else if state == 1 {
        0
    } else if state == 2 && c == 'm' {
        3
    } else {
        state
    }
}

/// The recognizer's state after the first `k` characters of `s`, and how
/// many of them belong to the bracketed part of a color sequence.
pub open spec fn escape_scan(s: Seq<char>, k: int) -> (nat, nat)
    decreases k,
{
    if k <= 0 {
        (0, 0)
    } else {
        let (state, hidden) = escape_scan(s, k - 1);
        let next = escape_next(state, s[k - 1]);
        (if next == 3 { 0 } else { next }, if next > 1 { hidden + 1 } else { hidden })
    }
}

/// How many characters of `s` are the bracketed part (from `[` to `m`) of
/// an ANSI color sequence. The escape character itself is not counted here:
/// it keeps whatever width the Unicode width of the string gives it.
pub open spec fn hidden_chars(s: Seq<char>) -> nat {
    escape_scan(s, s.len() as int).1
}

/// `a - b`, or 0 when `b` exceeds `a`.
pub open spec fn minus(a: nat, b: nat) -> nat {
    if a >= b { (a - b) as nat } else { 0 }
}

/// `text` placed in a field of `size` columns: padded with spaces on the
/// side(s) that `align` leaves open, never cut.
pub open spec fn aligned(text: Seq<char>, text_width: nat, size: nat, align: Alignment) -> Seq<char> {
    let nfill = minus(size, text_width);
    let n = match align {
        Alignment::Left => 0,
        Alignment::Right => nfill,
        Alignment::Center => nfill / 2,
    };
    repeat_char(' ', n) + text + repeat_char(' ', (nfill - n) as nat)
}

/// Counts the characters of `text` hidden in ANSI color sequences.
pub(crate) fn count_hidden(text: &str) -> (r: usize)
    ensures
        r == hidden_chars(text@),
{
    let n = text.unicode_len();
    let mut state: usize = 0;
    let mut hidden: usize = 0;
    let mut i: usize = 0;
    while i < n
        invariant
            n == text@.len(),
            i <= n,
            hidden <= i,
            (state as nat, hidden as nat) == escape_scan(text@, i as int),
        decreases n - i,
    {
        let c = text.get_char(i);
        let next: usize = if state == 0 && c == '\u{1b}' {
            1
        } else if state == 1 && c == '[' {
            2
        } else if state == 1 {
            0
        } else if state == 2 && c == 'm' {
            3
        } else {
            state
        };
        if next > 1 {
            hidden = hidden + 1;
        }
        state = if next == 3 { 0 } else { next };
        i = i + 1;
    }
    hidden
}

/// Writes `text` in a field of `size` columns, where `text_width` is the
/// width that `text` takes.
pub(crate) fn write_aligned(out: &mut StringWriter, align: Alignment, text: &str, text_width: usize, size: usize)
    ensures
        final(out)@ == old(out)@ + aligned(text@, text_width as nat, size as nat, align),
{
    let nfill = if text_width < size { size - text_width } else { 0 };
    let n = match align {
        Alignment::Left => 0,
        Alignment::Right => nfill,
        Alignment::Center => nfill / 2,
    };
    out.push_repeated(' ', n);
    out.write_str(text);
    out.push_repeated(' ', nfill - n);
    assert(final(out)@ =~= old(out)@ + aligned(text@, text_width as nat, size as nat, align));
}

/// The layout of a table.
#[derive(Debug)]
pub struct TableConfig {
    /// The width of each column.
    pub col_width: Vec<usize>,
    /// The padding to the left and to the right of each cell.
    pub padding: (usize, usize),
    pub align: Alignment,
    /// Whether columns are separated by a junction character.
    pub colsep: bool,
    /// Whether rows start with a border character.
    pub lborder: bool,
    /// Whether rows end with a border character.
    pub rborder: bool,
}

impl TableConfig {
    pub fn new(
        col_width: Vec<usize>,
        padding: (usize, usize),
        align: Alignment,
        colsep: bool,
        lborder: bool,
        rborder: bool,
    ) -> (r: TableConfig)
        ensures
            r.col_width@ == col_width@,
            r.padding == padding,
            r.align == align,
            r.colsep == colsep,
            r.lborder == lborder,
            r.rborder == rborder,
    {
        TableConfig { col_width, padding, align, colsep, lborder, rborder }
    }

    /// A layout whose columns are as wide as the header cells.
    pub fn from_header(
        header: &[&str],
        padding: (usize, usize),
        align: Alignment,
        colsep: bool,
        lborder: bool,
        rborder: bool,
    ) -> (r: TableConfig)
        ensures
            r.col_width@.len() == header@.len(),
            forall|i: int| 0 <= i < header@.len() ==> r.col_width@[i] == unicode_width(#[trigger] header@[i]@),
            r.padding == padding,
            r.align == align,
            r.colsep == colsep,
            r.lborder == lborder,
            r.rborder == rborder,
    {
        let mut col_width: Vec<usize> = Vec::new();
        let mut i: usize = 0;
        while i < header.len()
            invariant
                i <= header@.len(),
                col_width@.len() == i,
                forall|j: int| 0 <= j < i ==> col_width@[j] == unicode_width(#[trigger] header@[j]@),
            decreases header@.len() - i,
        {
            col_width.push(str_width(header[i]));
            i = i + 1;
        }
        TableConfig::new(col_width, padding, align, colsep, lborder, rborder)
    }
}

/// The columns of a separator line: each column is `line` repeated over its
/// width and both paddings; `junc` stands between columns when `colsep`.
pub open spec fn separator_columns(
    line: char,
    junc: char,
    widths: Seq<usize>,
    padding: (usize, usize),
    colsep: bool,
) -> Seq<char>
    decreases widths.len(),
{
    if widths.len() == 0 {
        seq![]
    } else {
        let k = widths.len() - 1;
        separator_columns(line, junc, widths.take(k), padding, colsep) + (if colsep && k > 0 {
            seq![junc]
        } else {
            seq![]
        }) + repeat_char(line, (widths[k] + padding.0 + padding.1) as nat)
    }
}

/// The cells of a row: each value aligned in its column widened by both
/// paddings; `junc` stands between cells when `colsep`.
pub open spec fn value_columns(
    junc: char,
    values: Seq<&str>,
    widths: Seq<usize>,
    padding: (usize, usize),
    align: Alignment,
    colsep: bool,
) -> Seq<char>
    decreases values.len(),
{
    if values.len() == 0 || widths.len() < values.len() {
        seq![]
    } else {
        let k = values.len() - 1;
        value_columns(junc, values.take(k), widths, padding, align, colsep) + (if colsep && k > 0 {
            seq![junc]
        } else {
            seq![]
        }) + aligned(
            values[k]@,
            display_width_spec(values[k]@),
            (widths[k] + padding.0 + padding.1) as nat,
            align,
        )
    }
}

/// `c` when `present`, else nothing.
pub open spec fn optional(present: bool, c: char) -> Seq<char> {
    if present { seq![c] } else { seq![] }
}

/// Every column width, widened by both paddings, fits in a `usize`.
pub open spec fn widths_fit(widths: Seq<usize>, padding: (usize, usize)) -> bool {
    forall|i: int| 0 <= i < widths.len() ==> #[trigger] widths[i] + padding.0 + padding.1 <= usize::MAX
}

/// The display width of `s`: its Unicode width, less the characters of its
/// ANSI color sequences.
pub open spec fn display_width_spec(s: Seq<char>) -> nat {
    minus(unicode_width(s), hidden_chars(s))
}

/// Draws the lines of a bordered table with four characters: `line` for
/// horizontal rules, `junc` between columns, `ljunc` and `rjunc` at the
/// borders.
#[derive(Debug, Clone, Copy, PartialEq, Eq, Hash, Structural)]
pub struct TableLogger {
    pub line: char,
    pub junc: char,
    pub ljunc: char,
    pub rjunc: char,
}

impl TableLogger {
    pub fn new(line: char, junc: char, ljunc: char, rjunc: char) -> (r: TableLogger)
        ensures
            r == (TableLogger { line, junc, ljunc, rjunc }),
    {
        TableLogger { line, junc, ljunc, rjunc }
    }

    /// The display width of `text` on a terminal, not counting ANSI color
    /// sequences.
    pub fn display_width(text: &str) -> (r: usize)
        ensures
            r == display_width_spec(text@),
    {
        let width = str_width(text);
        let hidden = count_hidden(text);
        if width >= hidden {
            width - hidden
        } else {
            0
        }
    }

    /// Writes a separator line for columns of widths `col_width`, followed
    /// by a newline when `newline`. Returns the number of lines written.
    pub fn log_separator(
        &self,
        out: &mut StringWriter,
        col_width: &[usize],
        padding: (usize, usize),
        colsep: bool,
        lborder: bool,
        rborder: bool,
        newline: bool,
    ) -> (r: Result<usize, LtrError>)
        requires
            widths_fit(col_width@, padding),
        ensures
            r == Ok::<usize, LtrError>(1),
            final(out)@ == old(out)@ + optional(lborder, self.ljunc) + separator_columns(
                self.line,
                self.junc,
                col_width@,
                padding,
                colsep,
            ) + optional(rborder, self.rjunc) + optional(newline, '\n'),
    {
        if lborder {
            out.push(self.ljunc);
        }
        let ghost start = out@;
        let mut i: usize = 0;
        while i < col_width.len()
            invariant
                widths_fit(col_width@, padding),
                i <= col_width@.len(),
                out@ == start + separator_columns(
                    self.line,
                    self.junc,
                    col_width@.take(i as int),
                    padding,
                    colsep,
                ),
            decreases col_width@.len() - i,
        {
            if colsep && i > 0 {
                out.push(self.junc);
            }
            let w = col_width[i];
            out.push_repeated(self.line, w + padding.0 + padding.1);
            proof {
                let next = col_width@.take(i + 1);
                assert(next.take(i as int) =~= col_width@.take(i as int));
                assert(next[i as int] == w);
            }
            i = i + 1;
            assert(out@ =~= start + separator_columns(
                self.line,
                self.junc,
                col_width@.take(i as int),
                padding,
                colsep,
            ));
        }
        assert(col_width@.take(i as int) =~= col_width@);
        if rborder {
            out.push(self.rjunc);
        }
        if newline {
            out.push('\n');
        }
        assert(final(out)@ =~= old(out)@ + optional(lborder, self.ljunc) + separator_columns(
            self.line,
            self.junc,
            col_width@,
            padding,
            colsep,
        ) + optional(rborder, self.rjunc) + optional(newline, '\n'));
        Ok(1)
    }

    /// [`Self::log_separator`] with the widths, padding and borders of
    /// `config`.
    pub fn log_separator_with_config(&self, out: &mut StringWriter, config: &TableConfig, newline: bool) -> (r: Result<
        usize,
        LtrError,
    >)
        requires
            widths_fit(config.col_width@, config.padding),
        ensures
            r == Ok::<usize, LtrError>(1),
            final(out)@ == old(out)@ + optional(config.lborder, self.ljunc) + separator_columns(
                self.line,
                self.junc,
                config.col_width@,
                config.padding,
                config.colsep,
            ) + optional(config.rborder, self.rjunc) + optional(newline, '\n'),
    {
        self.log_separator(
            out,
            config.col_width.as_slice(),
            config.padding,
            config.colsep,
            config.lborder,
            config.rborder,
            newline,
        )
    }

    /// Writes a row: each value aligned in its column, then a newline.
    /// Returns the number of lines written.
    pub fn log_value(
        &self,
        out: &mut StringWriter,
        value: Vec<&str>,
        col_width: &[usize],
        padding: (usize, usize),
        align: Alignment,
        colsep: bool,
        lborder: bool,
        rborder: bool,
    ) -> (r: Result<usize, LtrError>)
        requires
            value@.len() == col_width@.len(),
            widths_fit(col_width@, padding),
        ensures
            r == Ok::<usize, LtrError>(1),
            final(out)@ == old(out)@ + optional(lborder, self.ljunc) + value_columns(
                self.junc,
                value@,
                col_width@,
                padding,
                align,
                colsep,
            ) + optional(rborder, self.rjunc) + seq!['\n'],
    {
        if lborder {
            out.push(self.ljunc);
        }
        let ghost start = out@;
        let mut i: usize = 0;
        while i < value.len()
            invariant
                value@.len() == col_width@.len(),
                widths_fit(col_width@, padding),
                i <= value@.len(),
                out@ == start + value_columns(
                    self.junc,
                    value@.take(i as int),
                    col_width@,
                    padding,
                    align,
                    colsep,
                ),
            decreases value@.len() - i,
        {
            if colsep && i > 0 {
                out.push(self.junc);
            }
            let v = value[i];
            let w = col_width[i];
            write_aligned(out, align, v, TableLogger::display_width(v), w + padding.0 + padding.1);
            proof {
                let next = value@.take(i + 1);
                assert(next.take(i as int) =~= value@.take(i as int));
                assert(next[i as int] == v);
            }
            i = i + 1;
            assert(out@ =~= start + value_columns(
                self.junc,
                value@.take(i as int),
                col_width@,
                padding,
                align,
                colsep,
            ));
        }
        assert(value@.take(i as int) =~= value@);
        if rborder {
            out.push(self.rjunc);
        }
        out.push('\n');
        assert(final(out)@ =~= old(out)@ + optional(lborder, self.ljunc) + value_columns(
            self.junc,
            value@,
            col_width@,
            padding,
            align,
            colsep,
        ) + optional(rborder, self.rjunc) + seq!['\n']);
        Ok(1)
    }

    /// [`Self::log_value`] with the layout of `config`.
    pub fn log_value_with_config(&self, out: &mut StringWriter, value: Vec<&str>, config: &TableConfig) -> (r: Result<
        usize,
        LtrError,
    >)
        requires
            value@.len() == config.col_width@.len(),
            widths_fit(config.col_width@, config.padding),
        ensures
            r == Ok::<usize, LtrError>(1),
            final(out)@ == old(out)@ + optional(config.lborder, self.ljunc) + value_columns(
                self.junc,
                value@,
                config.col_width@,
                config.padding,
                config.align,
                config.colsep,
            ) + optional(config.rborder, self.rjunc) + seq!['\n'],
    {
        self.log_value(
            out,
            value,
            config.col_width.as_slice(),
            config.padding,
            config.align,
            config.colsep,
            config.lborder,
            config.rborder,
        )
    }
}

impl Default for TableLogger {
    fn default() -> (r: TableLogger)
        ensures
            r == (TableLogger { line: '-', junc: '+', ljunc: '+', rjunc: '+' }),
    {
        TableLogger::new('-', '+', '+', '+')
    }
}

/// A text buffer that tables are written into.
#[derive(Debug)]
pub struct StringWriter {
    string: String,
}

impl View for StringWriter {
    type V = Seq<char>;

    closed spec fn view(&self) -> Seq<char> {
        self.string@
    }
}

impl StringWriter {
    pub fn new() -> (r: StringWriter)
        ensures
            r@ == Seq::<char>::empty(),
    {
        StringWriter { string: String::new() }
    }

    /// The text written so far.
    pub fn as_string(&self) -> (r: &str)
        ensures
            r@ == self@,
    {
        self.string.as_str()
    }

    /// Appends `s`.
    pub fn write_str(&mut self, s: &str)
        ensures
            final(self)@ == old(self)@ + s@,
    {
        self.string.append(s);
    }

    /// Appends `c`.
    pub fn push(&mut self, c: char)
        ensures
            final(self)@ == old(self)@.push(c),
    {
        push_char(&mut self.string, c);
    }

    /// Appends `n` copies of `c`.
    pub fn push_repeated(&mut self, c: char, n: usize)
        ensures
            final(self)@ == old(self)@ + repeat_char(c, n as nat),
    {
        push_repeated(&mut self.string, c, n);
    }
}

} // verus!
