use archlint::no_cli_mocks::comfy_table::{Cell, Color, Table};
use archlint::no_cli_mocks::console::{style, Term};
use archlint::no_cli_mocks::indicatif::{ProgressBar, ProgressStyle};

#[test]
fn styling_keeps_the_value() {
    let s = style(42).red().bold().dim().underlined();
    assert_eq!(s.0, 42);
    assert!(!Term::stdout().is_term());
}

#[test]
fn progress_and_tables_do_nothing() {
    let bar = ProgressBar::new(10);
    bar.inc(1);
    bar.set_style(ProgressStyle::default_bar().progress_chars("=>-"));
    bar.finish_and_clear();
    assert!(ProgressStyle::default_spinner().template("{msg}").is_ok());
    let mut table = Table::new();
    table.set_header(vec!["a"]).add_row(vec!["b"]);
    let _cell = Cell::new("x").fg(Color::Red);
    assert_eq!(table.render(), "[Table output disabled in library build]");
}
