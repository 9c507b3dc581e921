//! What parsing a source file yields (its symbols, classes, functions and
//! ignored lines), and the parser's settings.

use crate::graph::CodeRange;
use crate::parser::ignore::IgnoredRules;
use crate::text::list_contains;
use vstd::prelude::*;

verus! {

/// The kind of a code symbol (e.g., function, class, type).
#[derive(Debug, Clone, Copy, PartialEq, Eq, Structural)]
pub enum SymbolKind {
    Function,
    Class,
    Variable,
    Type,
    Interface,
    Enum,
    Unknown,
}

/// Accessibility level for class methods.
#[derive(Debug, Clone, Copy, PartialEq, Eq, Structural)]
pub enum MethodAccessibility {
    Public,
    Protected,
    Private,
}

/// Configuration for the code parser: which facts to collect.
#[derive(Debug, Clone, Copy, PartialEq, Eq, Structural)]
pub struct ParserConfig {
    /// Whether to collect function complexity metrics.
    pub collect_complexity: bool,
    /// Whether to count primitive parameters.
    pub collect_primitive_params: bool,
    /// Whether to extract class definitions and method details.
    pub collect_classes: bool,
    /// Whether to track environment variable usage.
    pub collect_env_vars: bool,
    /// Whether to track all symbol usages (required for some design detectors).
    pub collect_used_symbols: bool,
}

/// A symbol exported from a file. Sets of names are held as lists, each name
/// once.
pub struct ExportedSymbol {
    /// Name of the exported symbol.
    pub name: String,
    /// Kind of the symbol.
    pub kind: SymbolKind,
    /// Whether this is a re-export from another module.
    pub is_reexport: bool,
    /// Original source module for re-exports.
    pub source: Option<String>,
    /// Line number of the export (1-based).
    pub line: usize,
    /// Column number of the export (1-based).
    pub column: usize,
    /// Exact code range of the export.
    pub range: CodeRange,
    /// Other symbols used within this exported symbol.
    pub used_symbols: Vec<String>,
    /// Whether the exported variable is mutable (`let` rather than `const`).
    pub is_mutable: bool,
    /// Whether this is a default export.
    pub is_default: bool,
}

/// A symbol imported into a file.
pub struct ImportedSymbol {
    /// Original name of the symbol in the source module.
    pub name: String,
    /// Alias used for the import (`import { name as alias }`).
    pub alias: Option<String>,
    /// Resolved source module or file path.
    pub source: String,
    /// Line number of the import (1-based).
    pub line: usize,
    /// Column number of the import (1-based).
    pub column: usize,
    /// Exact code range of the import statement.
    pub range: CodeRange,
    /// Whether this is a type-only import.
    pub is_type_only: bool,
    /// Whether this import is being re-exported.
    pub is_reexport: bool,
    /// Whether this is a dynamic import (`import()` or `require()`).
    pub is_dynamic: bool,
}

/// A method of a class.
pub struct MethodSymbol {
    /// Name of the method.
    pub name: String,
    /// Class fields used by this method, each once.
    pub used_fields: Vec<String>,
    /// Other methods of the class called by this method, each once.
    pub used_methods: Vec<String>,
    /// Line number of the method definition.
    pub line: usize,
    /// Column number of the method definition.
    pub column: usize,
    /// Exact code range of the method.
    pub range: CodeRange,
    /// Whether the method has any decorators.
    pub has_decorators: bool,
    /// Whether this is a getter or setter.
    pub is_accessor: bool,
    /// Optional accessibility level.
    pub accessibility: Option<MethodAccessibility>,
    /// Whether the method is abstract.
    pub is_abstract: bool,
}

/// Builds a `MethodSymbol` step by step.
pub struct MethodSymbolBuilder {
    pub name: String,
    pub line: usize,
    pub column: usize,
    pub range: CodeRange,
    pub has_decorators: bool,
    pub is_accessor: bool,
    pub accessibility: Option<MethodAccessibility>,
    pub is_abstract: bool,
}

impl MethodSymbolBuilder {
    /// A builder for the method `name` at `line`, `column` and `range`, with
    /// no decorators, not an accessor, no accessibility, not abstract.
    pub fn new(name: String, line: usize, column: usize, range: CodeRange) -> (r: Self)
        ensures
            r.name == name,
            r.line == line,
            r.column == column,
            r.range == range,
            !r.has_decorators,
            !r.is_accessor,
            r.accessibility is None,
            !r.is_abstract,
    {
        MethodSymbolBuilder {
            name,
            line,
            column,
            range,
            has_decorators: false,
            is_accessor: false,
            accessibility: None,
            is_abstract: false,
        }
    }

    /// The builder with decorators or without.
    pub fn has_decorators(self, value: bool) -> (r: Self)
        ensures
            r == (MethodSymbolBuilder { has_decorators: value, ..self }),
    {
        MethodSymbolBuilder { has_decorators: value, ..self }
    }

    /// The builder for an accessor or not.
    pub fn is_accessor(self, value: bool) -> (r: Self)
        ensures
            r == (MethodSymbolBuilder { is_accessor: value, ..self }),
    {
        MethodSymbolBuilder { is_accessor: value, ..self }
    }

    /// The builder with accessibility `value`.
    pub fn accessibility(self, value: Option<MethodAccessibility>) -> (r: Self)
        ensures
            r == (MethodSymbolBuilder { accessibility: value, ..self }),
    {
        MethodSymbolBuilder { accessibility: value, ..self }
    }

    /// The builder for an abstract method or not.
    pub fn is_abstract(self, value: bool) -> (r: Self)
        ensures
            r == (MethodSymbolBuilder { is_abstract: value, ..self }),
    {
        MethodSymbolBuilder { is_abstract: value, ..self }
    }

    /// The method built, using no fields and no other methods.
    pub fn build(self) -> (r: MethodSymbol)
        ensures
            r.name == self.name,
            r.used_fields@.len() == 0,
            r.used_methods@.len() == 0,
            r.line == self.line,
            r.column == self.column,
            r.range == self.range,
            r.has_decorators == self.has_decorators,
            r.is_accessor == self.is_accessor,
            r.accessibility == self.accessibility,
            r.is_abstract == self.is_abstract,
    {
        MethodSymbol {
            name: self.name,
            used_fields: Vec::new(),
            used_methods: Vec::new(),
            line: self.line,
            column: self.column,
            range: self.range,
            has_decorators: self.has_decorators,
            is_accessor: self.is_accessor,
            accessibility: self.accessibility,
            is_abstract: self.is_abstract,
        }
    }
}

impl MethodSymbol {
    /// A method with the given facts, using no fields and no other methods.
    pub fn new(
        name: String,
        line: usize,
        column: usize,
        range: CodeRange,
        has_decorators: bool,
        is_accessor: bool,
        accessibility: Option<MethodAccessibility>,
        is_abstract: bool,
    ) -> (r: Self)
        ensures
            r.name == name,
            r.used_fields@.len() == 0,
            r.used_methods@.len() == 0,
            r.line == line,
            r.column == column,
            r.range == range,
            r.has_decorators == has_decorators,
            r.is_accessor == is_accessor,
            r.accessibility == accessibility,
            r.is_abstract == is_abstract,
    {
        MethodSymbol {
            name,
            used_fields: Vec::new(),
            used_methods: Vec::new(),
            line,
            column,
            range,
            has_decorators,
            is_accessor,
            accessibility,
            is_abstract,
        }
    }
}

/// A class definition.
pub struct ClassSymbol {
    /// Name of the class.
    pub name: String,
    /// Name of the super class, if any.
    pub super_class: Option<String>,
    /// Interfaces implemented by the class.
    pub implements: Vec<String>,
    /// Field names defined in the class.
    pub fields: Vec<String>,
    /// Methods defined in the class.
    pub methods: Vec<MethodSymbol>,
    /// Whether the class is abstract.
    pub is_abstract: bool,
}

impl ClassSymbol {
    /// A class named `name` with no super class, interfaces, fields or
    /// methods, not abstract.
    pub fn new(name: String) -> (r: Self)
        ensures
            r.name == name,
            r.super_class is None,
            r.implements@.len() == 0,
            r.fields@.len() == 0,
            r.methods@.len() == 0,
            !r.is_abstract,
    {
        ClassSymbol {
            name,
            super_class: None,
            implements: Vec::new(),
            fields: Vec::new(),
            methods: Vec::new(),
            is_abstract: false,
        }
    }
}

/// All symbols extracted from one source file.
pub struct FileSymbols {
    /// Symbols exported from the file.
    pub exports: Vec<ExportedSymbol>,
    /// Symbols imported into the file.
    pub imports: Vec<ImportedSymbol>,
    /// Class definitions found in the file.
    pub classes: Vec<ClassSymbol>,
    /// Names of all symbols defined locally in the file.
    pub local_definitions: Vec<String>,
    /// Names of all symbols used in the file, each once.
    pub local_usages: Vec<String>,
    /// Whether the file contains any executable runtime code.
    pub has_runtime_code: bool,
    /// Environment variables accessed in the file, each once.
    pub env_vars: Vec<String>,
}

impl Default for FileSymbols {
    /// The symbols of an empty file.
    fn default() -> (r: Self)
        ensures
            r.exports@.len() == 0,
            r.imports@.len() == 0,
            r.classes@.len() == 0,
            r.local_definitions@.len() == 0,
            r.local_usages@.len() == 0,
            !r.has_runtime_code,
            r.env_vars@.len() == 0,
    {
        FileSymbols {
            exports: Vec::new(),
            imports: Vec::new(),
            classes: Vec::new(),
            local_definitions: Vec::new(),
            local_usages: Vec::new(),
            has_runtime_code: false,
            env_vars: Vec::new(),
        }
    }
}

/// How complex a function is.
pub struct FunctionComplexity {
    /// Name of the function.
    pub name: String,
    /// Line number of the function definition.
    pub line: usize,
    /// Exact code range of the function.
    pub range: CodeRange,
    /// Cyclomatic complexity score.
    pub cyclomatic_complexity: usize,
    /// Cognitive complexity score.
    pub cognitive_complexity: usize,
    /// Maximum nesting depth.
    pub max_depth: usize,
    /// Total number of parameters.
    pub param_count: usize,
    /// Number of parameters with primitive types.
    pub primitive_params: usize,
    /// Whether the function is a constructor.
    pub is_constructor: bool,
}

/// What parsing one file yields.
pub struct ParsedFile {
    /// Symbols extracted from the file.
    pub symbols: FileSymbols,
    /// Complexity of each function of the file.
    pub functions: Vec<FunctionComplexity>,
    /// Total number of lines in the file.
    pub lines: usize,
    /// The rules ignored on each line.
    pub ignored_lines: IgnoredRules,
}

/// Whether the detector ids `ids` hold `id`.
pub open spec fn has_id(ids: Seq<String>, id: Seq<char>) -> bool {
    exists|i: int| 0 <= i < ids.len() && #[trigger] ids[i]@ == id
}

/// The detector ids that need complexity metrics.
pub open spec fn needs_complexity(ids: Seq<String>) -> bool {
    ||| has_id(ids, "complexity"@)
    ||| has_id(ids, "cyclomatic_complexity"@)
    ||| has_id(ids, "cognitive_complexity"@)
    ||| has_id(ids, "deep_nesting"@)
    ||| has_id(ids, "long_params"@)
    ||| has_id(ids, "hub_module"@)
    ||| has_id(ids, "god_module"@)
    ||| has_id(ids, "hub_dependency"@)
}

impl ParserConfig {
    /// Collect everything.
    pub fn all() -> (r: Self)
        ensures
            r.collect_complexity && r.collect_primitive_params && r.collect_classes
                && r.collect_env_vars && r.collect_used_symbols,
    {
        ParserConfig {
            collect_complexity: true,
            collect_primitive_params: true,
            collect_classes: true,
            collect_env_vars: true,
            collect_used_symbols: true,
        }
    }

    /// Collect only imports and exports.
    pub fn minimal() -> (r: Self)
        ensures
            !r.collect_complexity && !r.collect_primitive_params && !r.collect_classes
                && !r.collect_env_vars && !r.collect_used_symbols,
    {
        ParserConfig {
            collect_complexity: false,
            collect_primitive_params: false,
            collect_classes: false,
            collect_env_vars: false,
            collect_used_symbols: false,
        }
    }

    /// The facts that the active detectors `active_ids` need.
    pub fn from_active_detectors(active_ids: &[String]) -> (r: Self)
        ensures
            r.collect_complexity == needs_complexity(active_ids@),
            r.collect_primitive_params == has_id(active_ids@, "primitive_obsession"@),
            r.collect_classes == (has_id(active_ids@, "lcom"@) || has_id(active_ids@, "dead_symbols"@)
                || has_id(active_ids@, "abstractness"@)),
            r.collect_env_vars == has_id(active_ids@, "scattered_config"@),
            r.collect_used_symbols == (has_id(active_ids@, "scattered_module"@) || has_id(active_ids@, "lcom"@)),
    {
        let collect_complexity = list_contains(active_ids, "complexity")
            || list_contains(active_ids, "cyclomatic_complexity")
            || list_contains(active_ids, "cognitive_complexity")
            || list_contains(active_ids, "deep_nesting")
            || list_contains(active_ids, "long_params")
            || list_contains(active_ids, "hub_module")
            || list_contains(active_ids, "god_module")
            || list_contains(active_ids, "hub_dependency");
        ParserConfig {
            collect_complexity,
            collect_primitive_params: list_contains(active_ids, "primitive_obsession"),
            collect_classes: list_contains(active_ids, "lcom") || list_contains(active_ids, "dead_symbols")
                || list_contains(active_ids, "abstractness"),
            collect_env_vars: list_contains(active_ids, "scattered_config"),
            collect_used_symbols: list_contains(active_ids, "scattered_module") || list_contains(active_ids, "lcom"),
        }
    }
}

impl Default for ParserConfig {
    fn default() -> (r: Self)
        ensures
            r == ParserConfig::all_spec(),
    {
        Self::all()
    }
}

impl ParserConfig {
    /// The configuration that collects everything.
    pub open spec fn all_spec() -> ParserConfig {
        ParserConfig {
            collect_complexity: true,
            collect_primitive_params: true,
            collect_classes: true,
            collect_env_vars: true,
            collect_used_symbols: true,
        }
    }
}

} // verus!
