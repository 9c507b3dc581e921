use archlint::graph::CodeRange;
use archlint::parser::types::{ClassSymbol, FileSymbols, MethodAccessibility, MethodSymbol, MethodSymbolBuilder};

fn range() -> CodeRange {
    CodeRange { start_line: 3, start_column: 1, end_line: 5, end_column: 2 }
}

#[test]
fn method_builder_sets_each_flag() {
    let m = MethodSymbolBuilder::new("run".to_string(), 3, 1, range())
        .has_decorators(true)
        .is_accessor(false)
        .accessibility(Some(MethodAccessibility::Private))
        .is_abstract(true)
        .build();
    assert_eq!(m.name, "run");
    assert!(m.has_decorators);
    assert!(!m.is_accessor);
    assert_eq!(m.accessibility, Some(MethodAccessibility::Private));
    assert!(m.is_abstract);
    assert!(m.used_fields.is_empty() && m.used_methods.is_empty());
    assert_eq!(m.line, 3);
    let plain = MethodSymbol::new("get".to_string(), 7, 2, range(), false, true, None, false);
    assert!(plain.is_accessor && plain.accessibility.is_none());
}

#[test]
fn new_class_and_empty_file() {
    let c = ClassSymbol::new("Service".to_string());
    assert_eq!(c.name, "Service");
    assert!(c.super_class.is_none() && c.methods.is_empty() && !c.is_abstract);
    let f = FileSymbols::default();
    assert!(f.exports.is_empty() && f.imports.is_empty() && !f.has_runtime_code);
}
