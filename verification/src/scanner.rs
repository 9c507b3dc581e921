//! Which files a scan keeps.

use vstd::prelude::*;
use crate::paths::{extension_of, path_extension};
use crate::text::{list_contains, str_views};

verus! {

/// Scans a project for source files with the given extensions.
pub struct FileScanner {
    pub project_root: String,
    pub scan_root: String,
    pub extensions: Vec<String>,
}

/// The directories that a scan never enters, as globs.
pub open spec fn default_excludes() -> Seq<Seq<char>> {
    seq!["**/node_modules/**"@, "**/dist/**"@, "**/build/**"@, "**/.next/**"@, "**/coverage/**"@]
}

impl FileScanner {
    /// A scanner of `scan_root` within the project at `project_root`, keeping
    /// files with one of `extensions`.
    pub fn new(project_root: String, scan_root: String, extensions: Vec<String>) -> (r: Self)
        ensures
            r.project_root == project_root,
            r.scan_root == scan_root,
            r.extensions == extensions,
    {
        FileScanner { project_root, scan_root, extensions }
    }

    /// Whether the file at `path` is kept: its extension is one of the scanner's.
    pub fn accepts(&self, path: &str) -> (r: bool)
        ensures
            r == match path_extension(path@) {
                Some(e) => str_views(self.extensions@).contains(e),
                None => false,
            },
    {
        match extension_of(path) {
            Some(e) => {
                let found = list_contains(self.extensions.as_slice(), e.as_str());
                proof {
                    let ev = str_views(self.extensions@);
                    if found {
                        let j = choose|j: int| 0 <= j < self.extensions@.len() && #[trigger] self.extensions@[j]@ == e@;
                        assert(ev[j] == e@);
                    }
                    if ev.contains(e@) {
                        let j = choose|j: int| 0 <= j < ev.len() && ev[j] == e@;
                        assert(self.extensions@[j]@ == e@);
                    }
                }
                found
            },
            None => false,
        }
    }

    /// The override globs that keep the scan out of build and dependency
    /// directories (each negated).
    pub fn exclude_overrides() -> (r: Vec<String>)
        ensures
            str_views(r@) == default_excludes().map_values(|g: Seq<char>| seq!['!'] + g),
    {
        let mut r: Vec<String> = Vec::new();
        r.push("!**/node_modules/**".to_owned());
        r.push("!**/dist/**".to_owned());
        r.push("!**/build/**".to_owned());
        r.push("!**/.next/**".to_owned());
        r.push("!**/coverage/**".to_owned());
        proof {
            reveal_strlit("!**/node_modules/**");
            reveal_strlit("**/node_modules/**");
            reveal_strlit("!**/dist/**");
            reveal_strlit("**/dist/**");
            reveal_strlit("!**/build/**");
            reveal_strlit("**/build/**");
            reveal_strlit("!**/.next/**");
            reveal_strlit("**/.next/**");
            reveal_strlit("!**/coverage/**");
            reveal_strlit("**/coverage/**");
            assert("!**/node_modules/**"@ =~= seq!['!'] + "**/node_modules/**"@);
            assert("!**/dist/**"@ =~= seq!['!'] + "**/dist/**"@);
            assert("!**/build/**"@ =~= seq!['!'] + "**/build/**"@);
            assert("!**/.next/**"@ =~= seq!['!'] + "**/.next/**"@);
            assert("!**/coverage/**"@ =~= seq!['!'] + "**/coverage/**"@);
        }
        assert(str_views(r@) =~= default_excludes().map_values(|g: Seq<char>| seq!['!'] + g));
        r
    }
}

} // verus!
