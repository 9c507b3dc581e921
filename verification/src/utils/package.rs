//! Package names in import specifiers.

use vstd::prelude::*;
use crate::globs::{glob_match, glob_matches};
use crate::text::{
    chars_of, contains_char, has_prefix, has_suffix, join, join_chars, slice_chars, split_char,
    split_on, str_ends_with, str_eq, str_starts_with, str_views, string_of,
};

verus! {

/// Helpers on the package part of import specifiers.
pub struct PackageUtils;

/// The package an import specifier names: `@scope/pkg` for a scoped one, else
/// the part before the first `/`.
pub open spec fn package_name(source: Seq<char>) -> Seq<char> {
    let parts = split_on(source, '/');
    if source.len() > 0 && source[0] == '@' {
        join(parts.take(if parts.len() < 2 { parts.len() as int } else { 2 }), seq!['/'])
    } else {
        parts[0]
    }
}

/// Whether `pkg` is ignored by `pattern`: a `…/*` pattern ignores what starts
/// with the part before the `*`, another pattern with a `*` is a glob, and any
/// other pattern ignores exactly itself.
pub open spec fn ignored_by(pkg: Seq<char>, pattern: Seq<char>) -> bool {
    if has_suffix(pattern, seq!['/', '*']) {
        has_prefix(pkg, pattern.drop_last())
    } else if pattern.contains('*') {
        glob_matches(pattern, pkg)
    } else {
        pattern == pkg
    }
}

/// The modules built into Node.js, under their names and with the `node:` scheme.
pub open spec fn is_node_builtin(name: Seq<char>) -> bool {
    ||| has_prefix(name, "node:"@)
    ||| name == "assert"@ ||| name == "async_hooks"@ ||| name == "buffer"@
    ||| name == "child_process"@ ||| name == "cluster"@ ||| name == "console"@
    ||| name == "constants"@ ||| name == "crypto"@ ||| name == "dgram"@
    ||| name == "diagnostics_channel"@ ||| name == "dns"@ ||| name == "domain"@
    ||| name == "events"@ ||| name == "fs"@ ||| name == "http"@ ||| name == "http2"@
    ||| name == "https"@ ||| name == "inspector"@ ||| name == "module"@ ||| name == "net"@
    ||| name == "os"@ ||| name == "path"@ ||| name == "perf_hooks"@ ||| name == "process"@
    ||| name == "punycode"@ ||| name == "querystring"@ ||| name == "readline"@
    ||| name == "repl"@ ||| name == "stream"@ ||| name == "string_decoder"@
    ||| name == "timers"@ ||| name == "tls"@ ||| name == "trace_events"@ ||| name == "tty"@
    ||| name == "url"@ ||| name == "util"@ ||| name == "v8"@ ||| name == "vm"@
    ||| name == "wasi"@ ||| name == "worker_threads"@ ||| name == "zlib"@
}

impl PackageUtils {
    /// The package that `source` imports from: `lodash/get` gives `lodash`,
    /// `@scope/pkg/utils` gives `@scope/pkg`.
    pub fn extract_package_name(source: &str) -> (r: String)
        ensures
            r@ == package_name(source@),
    {
        let cs = chars_of(source);
        let parts = split_char(cs.as_slice(), '/');
        let ghost pv = parts@.map_values(|w: Vec<char>| w@);
        assert(pv.len() >= 1);
        if cs.len() > 0 && cs[0] == '@' {
            let n = if parts.len() < 2 { parts.len() } else { 2 };
            let first = vstd::slice::slice_subrange(parts.as_slice(), 0, n);
            let sep = vec!['/'];
            assert(first@.map_values(|w: Vec<char>| w@) =~= pv.take(n as int));
            assert(sep@ =~= seq!['/']);
            let joined = join_chars(first, sep.as_slice());
            string_of(joined.as_slice())
        } else {
            string_of(parts[0].as_slice())
        }
    }

    /// Whether `source` names a package rather than a file: it starts with
    /// neither `.` nor `/`.
    pub fn is_external_package(source: &str) -> (r: bool)
        ensures
            r == !(source@.len() > 0 && (source@[0] == '.' || source@[0] == '/')),
    {
        if source.unicode_len() == 0 {
            true
        } else {
            let c = source.get_char(0);
            !(c == '.' || c == '/')
        }
    }

    /// Whether `pattern_str` ignores the package `pkg`.
    pub fn matches_ignore_pattern(pkg: &str, pattern_str: &str) -> (r: bool)
        ensures
            r == ignored_by(pkg@, pattern_str@),
    {
        let pc = chars_of(pattern_str);
        proof {
            reveal_strlit("/*");
            assert("/*"@ =~= seq!['/', '*']);
        }
        if str_ends_with(pattern_str, "/*") {
            let prefix = slice_chars(pc.as_slice(), 0, pc.len() - 1);
            assert(prefix@ =~= pattern_str@.drop_last());
            let kc = chars_of(pkg);
            crate::text::starts_with(kc.as_slice(), prefix.as_slice())
        } else if contains_char(pc.as_slice(), '*') {
            glob_match(pattern_str, pkg)
        } else {
            str_eq(pattern_str, pkg)
        }
    }

    /// Whether `name` is a module built into Node.js.
    pub fn is_builtin_package(name: &str) -> (r: bool)
        ensures
            r == is_node_builtin(name@),
    {
        str_starts_with(name, "node:") || str_eq(name, "assert") || str_eq(name, "async_hooks")
            || str_eq(name, "buffer") || str_eq(name, "child_process") || str_eq(name, "cluster")
            || str_eq(name, "console") || str_eq(name, "constants") || str_eq(name, "crypto")
            || str_eq(name, "dgram") || str_eq(name, "diagnostics_channel") || str_eq(name, "dns")
            || str_eq(name, "domain") || str_eq(name, "events") || str_eq(name, "fs")
            || str_eq(name, "http") || str_eq(name, "http2") || str_eq(name, "https")
            || str_eq(name, "inspector") || str_eq(name, "module") || str_eq(name, "net")
            || str_eq(name, "os") || str_eq(name, "path") || str_eq(name, "perf_hooks")
            || str_eq(name, "process") || str_eq(name, "punycode") || str_eq(name, "querystring")
            || str_eq(name, "readline") || str_eq(name, "repl") || str_eq(name, "stream")
            || str_eq(name, "string_decoder") || str_eq(name, "timers") || str_eq(name, "tls")
            || str_eq(name, "trace_events") || str_eq(name, "tty") || str_eq(name, "url")
            || str_eq(name, "util") || str_eq(name, "v8") || str_eq(name, "vm")
            || str_eq(name, "wasi") || str_eq(name, "worker_threads") || str_eq(name, "zlib")
    }

    /// Whether imports of `package` are left out: a Node.js built-in, or
    /// ignored by one of `ignore_packages`.
    pub fn should_ignore_package(package: &str, ignore_packages: &[String]) -> (r: bool)
        ensures
            r == (is_node_builtin(package@) || exists|i: int|
                0 <= i < ignore_packages@.len() && ignored_by(package@, #[trigger] ignore_packages@[i]@)),
    {
        if Self::is_builtin_package(package) {
            return true;
        }
        let mut i: usize = 0;
        while i < ignore_packages.len()
            invariant
                i <= ignore_packages@.len(),
                forall|j: int| 0 <= j < i ==> !ignored_by(package@, #[trigger] ignore_packages@[j]@),
            decreases ignore_packages@.len() - i,
        {
            if Self::matches_ignore_pattern(package, ignore_packages[i].as_str()) {
                return true;
            }
            i = i + 1;
        }
        false
    }
}

} // verus!
