use archlint::parser::ignore::IgnoredRules;
use archlint::parser::import_parser::{ImportParser, SourceComment};
use archlint::parser::line_index::LineIndex;
use archlint::parser::types::ParserConfig;

#[test]
fn test_is_relative_import() {
    assert!(ImportParser::is_relative_import("./foo"));
    assert!(ImportParser::is_relative_import("../foo"));
    assert!(!ImportParser::is_relative_import("foo"));
    assert!(!ImportParser::is_relative_import("@foo"));
}

#[test]
fn test_is_alias_import() {
    assert!(ImportParser::is_alias_import("@foo/bar"));
    assert!(ImportParser::is_alias_import("~/foo"));
    assert!(!ImportParser::is_alias_import("./foo"));
}

#[test]
fn test_line_index() {
    let text = "line1\nline2\nline3";
    let index = LineIndex::new(text);

    assert_eq!(index.line_col(0), (1, 1));
    assert_eq!(index.line_col(5), (1, 6));
    assert_eq!(index.line_col(6), (2, 1));
    assert_eq!(index.line_col(11), (2, 6));
    assert_eq!(index.line_col(12), (3, 1));
}

#[test]
fn test_empty() {
    let index = LineIndex::new("");
    assert_eq!(index.line_col(0), (1, 1));
    assert_eq!(index.line_count(), 1);
}

#[test]
fn test_single_line() {
    let index = LineIndex::new("hello");
    assert_eq!(index.line_col(0), (1, 1));
    assert_eq!(index.line_col(4), (1, 5));
}

#[test]
fn line_index_counts_trailing_newline_as_a_line() {
    let index = LineIndex::new("a\nb\n");
    assert_eq!(index.line_count(), 3);
    assert_eq!(index.line(4), 3);
}

fn comment(start: u32, text: &str) -> SourceComment {
    SourceComment { start, text: text.to_string() }
}

#[test]
fn ignore_directive_is_parsed() {
    let parser = ImportParser::new().ok().unwrap();
    let (cmd, rules) = parser.parse_ignore_command("// archlint-disable-line cycles, god_module").unwrap();
    assert_eq!(cmd, "archlint-disable-line");
    assert_eq!(rules, vec!["cycles".to_string(), "god_module".to_string()]);
    let (cmd, rules) = parser.parse_ignore_command("/* archlint-disable */").unwrap();
    assert_eq!(cmd, "archlint-disable");
    assert_eq!(rules, vec!["*".to_string()]);
    assert!(parser.parse_ignore_command("// just a comment").is_none());
}

#[test]
fn ignore_disable_line_marks_its_line() {
    let source = "a\n// archlint-disable-line cycles\nb\n";
    let index = LineIndex::new(source);
    let parser = ImportParser::new().ok().unwrap();
    let ignored: IgnoredRules = parser.parse_ignore_comments(&[comment(2, "// archlint-disable-line cycles")], &index);
    assert!(ignored.contains(2, "cycles"));
    assert!(!ignored.contains(1, "cycles"));
    assert!(!ignored.contains(3, "cycles"));
}

#[test]
fn ignore_disable_next_line_marks_the_next_line() {
    let source = "// archlint-disable-next-line dead_code\nexport const x = 1;\n";
    let index = LineIndex::new(source);
    let parser = ImportParser::new().ok().unwrap();
    let ignored = parser.parse_ignore_comments(&[comment(0, "// archlint-disable-next-line dead_code")], &index);
    assert!(ignored.contains(2, "dead_code"));
    assert!(!ignored.contains(1, "dead_code"));
}

#[test]
fn ignore_block_marks_lines_up_to_enable() {
    let source = "// archlint-disable cycles\na\nb\n// archlint-enable cycles\nc\n";
    let index = LineIndex::new(source);
    let parser = ImportParser::new().ok().unwrap();
    let enable_at = source.find("// archlint-enable").unwrap() as u32;
    let comments = vec![comment(0, "// archlint-disable cycles"), comment(enable_at, "// archlint-enable cycles")];
    let ignored = parser.parse_ignore_comments(&comments, &index);
    for line in 1..=4 {
        assert!(ignored.contains(line, "cycles"), "line {line}");
    }
    assert!(!ignored.contains(5, "cycles"));
}

#[test]
fn ignore_unclosed_star_block_at_top_marks_line_zero() {
    let source = "/* archlint-disable */\nx\n";
    let index = LineIndex::new(source);
    let parser = ImportParser::new().ok().unwrap();
    let ignored = parser.parse_ignore_comments(&[comment(0, "/* archlint-disable */")], &index);
    assert!(ignored.contains(0, "*"));
    assert!(ignored.contains(1, "*"));
    assert!(ignored.contains(3, "*"));
    assert!(!ignored.contains(4, "*"));
}

#[test]
fn ignore_multiline_comment_reads_each_line() {
    let text = "/*\n archlint-disable-line a\n archlint-disable-line b\n*/";
    let source = format!("x\n{text}\n");
    let index = LineIndex::new(&source);
    let parser = ImportParser::new().ok().unwrap();
    let ignored = parser.parse_ignore_comments(&[comment(2, text)], &index);
    assert!(ignored.contains(3, "a"));
    assert!(ignored.contains(4, "b"));
    assert!(!ignored.contains(3, "b"));
}

#[test]
fn parser_config_all_and_minimal() {
    let all = ParserConfig::all();
    let minimal = ParserConfig::minimal();
    assert!(all.collect_complexity);
    assert!(!minimal.collect_complexity);
}
