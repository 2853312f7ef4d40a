use ltrs::utils::format::{Alignment, StringWriter, TableConfig, TableLogger};
use ltrs::utils::logging;
use ltrs::utils::prettytable::{self, Table};

#[test]
fn test_table_formatter() {
    let mut writer = StringWriter::new();

    let sep = TableLogger::default();

    sep.log_separator(&mut writer, &[10, 8, 5], (2, 2), true, true, true, true).unwrap();

    assert_eq!(writer.as_string(), "+--------------+------------+---------+\n");

    sep.log_value(&mut writer, vec!["foo", "bar", "baz"], &[10, 8, 5], (2, 2), Alignment::Left, true, true, true)
        .unwrap();

    assert_eq!(
        writer.as_string(),
        "+--------------+------------+---------+\n+foo           +bar         +baz      +\n"
    );
}

#[test]
fn config_from_header_uses_display_width() {
    let cfg = TableConfig::from_header(&["ab", "日本", ""], (1, 0), Alignment::Right, false, false, false);
    assert_eq!(cfg.col_width, vec![2, 4, 0]);
    let mut writer = StringWriter::new();
    TableLogger::new('=', '|', '<', '>').log_separator_with_config(&mut writer, &cfg, false).unwrap();
    assert_eq!(writer.as_string(), "=========");
    let mut writer = StringWriter::new();
    TableLogger::new('=', '|', '<', '>').log_value_with_config(&mut writer, vec!["x", "日", "y"], &cfg).unwrap();
    assert_eq!(writer.as_string(), "  x   日y\n");
}

#[test]
fn separators_write_non_ascii_characters() {
    let mut writer = StringWriter::new();
    TableLogger::new('─', '┼', '├', '┤').log_separator(&mut writer, &[1, 2], (0, 1), true, true, true, true).unwrap();
    assert_eq!(writer.as_string(), "├──┼───┤\n");
}

#[test]
fn display_width_ignores_color_sequences() {
    assert_eq!(TableLogger::display_width("abc"), 3);
    // The escape characters themselves keep the width the Unicode tables give them.
    assert_eq!(TableLogger::display_width("\u{1b}[1;34mabc\u{1b}[0m"), 5);
    assert_eq!(TableLogger::display_width("日本"), 4);
    assert_eq!(Table::display_width("\u{1b}[31mab\u{1b}[0m"), 4);
    assert_eq!(Table::display_width("é"), 2);
    assert_eq!(logging::TableLogger::display_width("abc"), 3);
}

#[test]
fn center_alignment_puts_the_odd_space_on_the_right() {
    let table = Table::new(prettytable::TableConfig::new(vec![3, 2], (1, 1), Alignment::Center));
    assert_eq!(table.render(vec!["ab", "c"], false), " ab   c  ");
    assert_eq!(table.render(vec!["abcdefg", ""], false), "abcdefg    ");
    let colored = table.render(vec!["\u{1b}[1mab\u{1b}[0m", "c"], true);
    assert_eq!(colored, " \u{1b}[1mab\u{1b}[0m    c   ");
    let logger = logging::TableLogger::new(logging::TableConfig::new(vec![4], (0, 0), Alignment::Right));
    assert_eq!(logger.log(vec!["7"], false), "   7");
}
