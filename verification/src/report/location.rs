//! How a place in a file is written in a report: `path:line[:column]`,
//! with a range of lines where it spans several, and a description after it.

use vstd::prelude::*;
use crate::detectors::LocationDetail;
use crate::graph::CodeRange;
use crate::text::{append_str, decimal, push_char, push_decimal};

verus! {

/// The lines of a place: those of its range (one, or `start-end`), else `line`.
pub open spec fn line_text(line: nat, range: Option<CodeRange>) -> Seq<char> {
    match range {
        Some(r) => if r.start_line == r.end_line {
            decimal(r.start_line as nat)
        } else {
            decimal(r.start_line as nat) + seq!['-'] + decimal(r.end_line as nat)
        },
        None => decimal(line),
    }
}

/// A place written out: the path alone where there is neither a line nor a
/// range; else the path, the lines and, unless the range spans several
/// lines, the column; then the description in brackets where there is one.
pub open spec fn location_text(path: Seq<char>, line: nat, column: Option<usize>, range: Option<CodeRange>, description: Seq<char>) -> Seq<char> {
    let base = if line == 0 && range is None {
        path
    } else {
        let multi_line = match range {
            Some(r) => r.start_line != r.end_line,
            None => false,
        };
        match column {
            Some(c) => if !multi_line {
                path + seq![':'] + line_text(line, range) + seq![':'] + decimal(c as nat)
            } else {
                path + seq![':'] + line_text(line, range)
            },
            None => path + seq![':'] + line_text(line, range),
        }
    };
    if description.len() == 0 {
        base
    } else {
        base + " ("@ + description + seq![')']
    }
}

/// A place in a file: the path alone for line 0, else `path:line` or
/// `path:line:column`.
pub open spec fn simple_location_text(path: Seq<char>, line: nat, col: Option<usize>) -> Seq<char> {
    if line == 0 {
        path
    } else {
        match col {
            Some(c) => path + seq![':'] + decimal(line) + seq![':'] + decimal(c as nat),
            None => path + seq![':'] + decimal(line),
        }
    }
}

/// Appends the lines of a place.
fn push_lines(out: &mut String, line: usize, range: Option<CodeRange>)
    ensures
        final(out)@ == old(out)@ + line_text(line as nat, range),
{
    match range {
        Some(r) => {
            if r.start_line == r.end_line {
                push_decimal(out, r.start_line);
            } else {
                push_decimal(out, r.start_line);
                push_char(out, '-');
                push_decimal(out, r.end_line);
            }
        },
        None => push_decimal(out, line),
    }
}

/// A place written out, where `formatted_path` is its file as the report
/// shows it.
pub fn format_location_parts(
    formatted_path: &str,
    line: usize,
    column: Option<usize>,
    range: Option<CodeRange>,
    description: &str,
) -> (r: String)
    ensures
        r@ == location_text(formatted_path@, line as nat, column, range, description@),
{
    let mut out = formatted_path.to_owned();
    if !(line == 0 && range.is_none()) {
        let multi_line = match range {
            Some(r) => r.start_line != r.end_line,
            None => false,
        };
        push_char(&mut out, ':');
        push_lines(&mut out, line, range);
        match column {
            Some(c) => {
                if !multi_line {
                    push_char(&mut out, ':');
                    push_decimal(&mut out, c);
                }
            },
            None => {},
        }
    }
    if description.unicode_len() > 0 {
        append_str(&mut out, " (");
        append_str(&mut out, description);
        push_char(&mut out, ')');
    }
    proof {
        reveal_strlit(" (");
    }
    assert(out@ =~= location_text(formatted_path@, line as nat, column, range, description@));
    out
}

/// The place `loc` written out, where `formatted_path` is its file as the
/// report shows it.
pub fn format_location_detail(loc: &LocationDetail, formatted_path: &str) -> (r: String)
    ensures
        r@ == location_text(formatted_path@, loc.line as nat, loc.column, loc.range, loc.description@),
{
    format_location_parts(formatted_path, loc.line, loc.column, loc.range, loc.description.as_str())
}

/// A place in a file written out, where `formatted_path` is the file as the
/// report shows it.
pub fn format_location(formatted_path: &str, line: usize, col: Option<usize>) -> (r: String)
    ensures
        r@ == simple_location_text(formatted_path@, line as nat, col),
{
    let mut out = formatted_path.to_owned();
    if line != 0 {
        push_char(&mut out, ':');
        push_decimal(&mut out, line);
        match col {
            Some(c) => {
                push_char(&mut out, ':');
                push_decimal(&mut out, c);
            },
            None => {},
        }
    }
    assert(out@ =~= simple_location_text(formatted_path@, line as nat, col));
    out
}

} // verus!
