//! Stable, deterministic IDs for smells.

use vstd::prelude::*;
use sha2::{Digest, Sha256};
use crate::detectors::{ArchSmell, SmellType, smell_type_name};
use crate::snapshot::smell_text::{smell_text, smell_text_of};
use crate::order::{sort_strings, str_order};
use crate::paths::{relative_path, relative_to};
use crate::text::{
    append_str, chars_of, decimal, join, join_strings, lowercase, push_char, push_decimal,
    slice_chars, str_views, string_of, to_lowercase,
};

verus! {

/// Names what the SHA-256 digest of the UTF-8 bytes of `content` prints as,
/// in lowercase hexadecimal.
pub uninterp spec fn sha256_lower_hex(content: Seq<char>) -> Seq<char>;

/// Wraps `Sha256::digest` and the lowercase hexadecimal formatting of the
/// digest: 32 bytes, two digits each.
#[verifier::external_body]
fn sha256_hex(content: &str) -> (r: String)
    ensures
        r@ == sha256_lower_hex(content@),
        r@.len() == 64,
{
    format!("{:x}", Sha256::digest(content.as_bytes()))
}

/// The first 8 hexadecimal digits of the SHA-256 digest of `content`.
pub open spec fn short_hash_of(content: Seq<char>) -> Seq<char> {
    sha256_lower_hex(content).take(8)
}

/// A short, stable hash of `content`.
pub fn short_hash(content: &str) -> (r: String)
    ensures
        r@ == short_hash_of(content@),
{
    let hex = sha256_hex(content);
    let cs = chars_of(hex.as_str());
    let first = slice_chars(cs.as_slice(), 0, 8);
    assert(first@ =~= short_hash_of(content@));
    string_of(first.as_slice())
}

/// Each of `files` relative to `root`.
pub open spec fn relative_all(files: Seq<Seq<char>>, root: Seq<char>) -> Seq<Seq<char>> {
    files.map_values(|f: Seq<char>| relative_to(f, root))
}

/// The ID of a cycle through `files`: a hash of their sorted relative paths.
pub open spec fn cycle_id(files: Seq<Seq<char>>, root: Seq<char>) -> Seq<char> {
    "cycle:"@ + short_hash_of(join(relative_all(files, root).sort_by(str_order()), seq!['|']))
}

/// Mapping keeps two sequences with the same elements (counted) so.
pub proof fn lemma_map_same_elements(a: Seq<Seq<char>>, b: Seq<Seq<char>>, f: spec_fn(Seq<char>) -> Seq<char>)
    requires
        a.to_multiset() == b.to_multiset(),
    ensures
        a.map_values(f).to_multiset() == b.map_values(f).to_multiset(),
    decreases a.len(),
{
    broadcast use vstd::multiset::group_multiset_axioms;
    broadcast use vstd::seq_lib::group_to_multiset_ensures;

    if a.len() == 0 {
        vstd::seq_lib::to_multiset_len(a);
        vstd::seq_lib::to_multiset_len(b);
        assert(b.len() == 0);
        assert(a.map_values(f) =~= Seq::<Seq<char>>::empty());
        assert(b.map_values(f) =~= Seq::<Seq<char>>::empty());
    } else {
        let x = a.last();
        let a0 = a.drop_last();
        assert(a =~= a0.push(x));
        vstd::seq_lib::to_multiset_build(a0, x);
        assert(b.to_multiset().count(x) > 0);
        assert(b.contains(x));
        let j = choose|j: int| 0 <= j < b.len() && b[j] == x;
        vstd::seq_lib::to_multiset_remove(b, j);
        let b0 = b.remove(j);
        assert(a0.to_multiset() =~= b0.to_multiset());
        lemma_map_same_elements(a0, b0, f);
        let am = a.map_values(f);
        let bm = b.map_values(f);
        assert(am =~= a0.map_values(f).push(f(x)));
        vstd::seq_lib::to_multiset_build(a0.map_values(f), f(x));
        assert(bm.remove(j) =~= b0.map_values(f));
        vstd::seq_lib::to_multiset_remove(bm, j);
        assert(bm[j] == f(x));
        assert(bm.to_multiset().count(f(x)) > 0);
        assert(am.to_multiset() =~= bm.to_multiset());
    }
}

/// The ID of a cycle does not depend on the order in which its files are
/// listed: any two lists of the same files (counted with repetition) give one ID.
pub proof fn lemma_cycle_id_order_independent(a: Seq<Seq<char>>, b: Seq<Seq<char>>, root: Seq<char>)
    requires
        a.to_multiset() == b.to_multiset(),
    ensures
        cycle_id(a, root) == cycle_id(b, root),
{
    let f = |p: Seq<char>| relative_to(p, root);
    lemma_map_same_elements(a, b, f);
    let ra = relative_all(a, root);
    let rb = relative_all(b, root);
    assert(ra == a.map_values(f));
    assert(rb == b.map_values(f));
    crate::order::lemma_str_order_total();
    ra.lemma_sort_by_ensures(str_order());
    rb.lemma_sort_by_ensures(str_order());
    vstd::seq_lib::lemma_sorted_unique(ra.sort_by(str_order()), rb.sort_by(str_order()), str_order());
}

/// The ID of a smell of a whole file: the lowercased `prefix` and the file's relative path.
pub open spec fn file_smell_id(file: Seq<char>, prefix: Seq<char>, root: Seq<char>) -> Seq<char> {
    lowercase(prefix) + seq![':'] + relative_to(file, root)
}

/// The ID of an import from `from` into layer `to_layer`.
pub open spec fn layer_violation_id(from: Seq<char>, to_layer: Seq<char>, root: Seq<char>) -> Seq<char> {
    "layer:"@ + relative_to(from, root) + seq![':'] + to_layer
}

/// The ID of a smell of a symbol: prefix, relative path, symbol name and line.
pub open spec fn symbol_smell_id(
    prefix: Seq<char>,
    file: Seq<char>,
    symbol: Seq<char>,
    line: nat,
    root: Seq<char>,
) -> Seq<char> {
    prefix + seq![':'] + relative_to(file, root) + seq![':'] + symbol + seq![':'] + decimal(line)
}

/// The ID of a smell of another kind: its lowercased kind and a hash of the
/// sorted relative paths of its files (and `extra`, where not empty).
pub open spec fn generic_id(kind: Seq<char>, files: Seq<Seq<char>>, extra: Seq<char>, root: Seq<char>) -> Seq<char> {
    let sorted = relative_all(files, root).sort_by(str_order());
    let parts = if extra.len() > 0 { sorted.push(extra) } else { sorted };
    lowercase(kind) + seq![':'] + short_hash_of(join(parts, seq!['|']))
}

/// The line of the first location of `smell`, or 0.
pub open spec fn first_line(smell: ArchSmell) -> nat {
    if smell.locations@.len() > 0 {
        smell.locations@[0].line as nat
    } else {
        0
    }
}

/// `id`, and where the smell has no line, a hash of the first location's
/// description (of the smell written out, where it has no location).
pub open spec fn with_fallback(id: Seq<char>, smell: ArchSmell) -> Seq<char> {
    if first_line(smell) == 0 {
        let input = if smell.locations@.len() > 0 { smell.locations@[0].description@ } else { smell_text(smell) };
        id + seq![':'] + short_hash_of(input)
    } else {
        id
    }
}

/// Whether the ID of a smell of kind `t` is built from its first file.
pub open spec fn uses_first_file(t: SmellType) -> bool {
    match t {
        SmellType::CyclicDependency | SmellType::CyclicDependencyCluster => false,
        SmellType::HubDependency { .. } | SmellType::VendorCoupling { .. } => false,
        SmellType::ScatteredConfiguration { .. } | SmellType::CodeClone { .. } => false,
        SmellType::GodModule | SmellType::LargeFile | SmellType::UnstableInterface => true,
        SmellType::LayerViolation { .. } | SmellType::DeadSymbol { .. } => true,
        SmellType::HighComplexity { .. } | SmellType::HubModule => true,
        SmellType::LowCohesion { .. } | SmellType::SideEffectImport => true,
        SmellType::TestLeakage { .. } | SmellType::FeatureEnvy { .. } => true,
        SmellType::SharedMutableState { .. } | SmellType::DeepNesting { .. } => true,
        SmellType::LongParameterList { .. } | SmellType::PrimitiveObsession { .. } => true,
        SmellType::OrphanType { .. } => true,
        _ => false,
    }
}

/// Whether the ID of a smell of kind `t` falls back to a hash where it has no line.
pub open spec fn uses_line_fallback(t: SmellType) -> bool {
    match t {
        SmellType::DeadSymbol { .. } | SmellType::HighComplexity { .. } => true,
        SmellType::LowCohesion { .. } | SmellType::SideEffectImport => true,
        SmellType::SharedMutableState { .. } | SmellType::DeepNesting { .. } => true,
        SmellType::LongParameterList { .. } | SmellType::PrimitiveObsession { .. } => true,
        SmellType::OrphanType { .. } => true,
        _ => false,
    }
}

/// The stable ID of `smell` under `root`.
pub open spec fn smell_id(smell: ArchSmell, root: Seq<char>) -> Seq<char> {
    let f0 = smell.files@[0]@;
    let line = first_line(smell);
    match smell.smell_type {
        SmellType::CyclicDependency | SmellType::CyclicDependencyCluster => cycle_id(str_views(smell.files@), root),
        SmellType::GodModule | SmellType::LargeFile | SmellType::UnstableInterface => file_smell_id(
            f0,
            smell_type_name(smell.smell_type),
            root,
        ),
        SmellType::LayerViolation { to_layer, .. } => layer_violation_id(f0, to_layer@, root),
        SmellType::DeadSymbol { name, .. } => with_fallback(symbol_smell_id("dead"@, f0, name@, line, root), smell),
        SmellType::HighComplexity { name, .. } => with_fallback(symbol_smell_id("cmplx"@, f0, name@, line, root), smell),
        SmellType::HubModule => file_smell_id(f0, "hub"@, root),
        SmellType::LowCohesion { class_name, .. } => with_fallback(symbol_smell_id("lcom"@, f0, class_name@, line, root), smell),
        SmellType::HubDependency { package } => "hub_dep:"@ + package@,
        SmellType::VendorCoupling { package } => "vendor:"@ + package@,
        SmellType::SideEffectImport => with_fallback("sideeffect:"@ + relative_to(f0, root) + seq![':'] + decimal(line), smell),
        SmellType::TestLeakage { test_file } => "test_leak:"@ + relative_to(f0, root) + seq![':'] + relative_to(test_file@, root),
        SmellType::FeatureEnvy { most_envied_module } => "envy:"@ + relative_to(f0, root) + seq![':'] + relative_to(most_envied_module@, root),
        SmellType::SharedMutableState { symbol } => with_fallback(symbol_smell_id("shared"@, f0, symbol@, line, root), smell),
        SmellType::DeepNesting { name, .. } => with_fallback(symbol_smell_id("nest"@, f0, name@, line, root), smell),
        SmellType::LongParameterList { name, .. } => with_fallback(symbol_smell_id("params"@, f0, name@, line, root), smell),
        SmellType::PrimitiveObsession { name, .. } => with_fallback(symbol_smell_id("prim"@, f0, name@, line, root), smell),
        SmellType::OrphanType { name } => with_fallback(symbol_smell_id("orphan"@, f0, name@, line, root), smell),
        SmellType::ScatteredConfiguration { env_var, .. } => "config:"@ + env_var@,
        SmellType::CodeClone { clone_hash, .. } => "clone:"@ + clone_hash@,
        _ => generic_id(smell_type_name(smell.smell_type), str_views(smell.files@), Seq::empty(), root),
    }
}

/// Each of `files` relative to `root`.
fn relative_paths(files: &Vec<String>, root: &str) -> (r: Vec<String>)
    ensures
        str_views(r@) == relative_all(str_views(files@), root@),
{
    let mut r: Vec<String> = Vec::new();
    let mut i: usize = 0;
    while i < files.len()
        invariant
            i <= files@.len(),
            str_views(r@) == relative_all(str_views(files@), root@).take(i as int),
        decreases files@.len() - i,
    {
        let rel = relative_path(files[i].as_str(), root);
        let ghost before = str_views(r@);
        r.push(rel);
        assert(str_views(r@) =~= before.push(rel@));
        assert(relative_all(str_views(files@), root@).take(i + 1) =~= relative_all(str_views(files@), root@).take(i as int).push(rel@));
        i = i + 1;
    }
    assert(relative_all(str_views(files@), root@).take(files@.len() as int) =~= relative_all(str_views(files@), root@));
    r
}

/// The ID of a cycle through `files`; the order of the files does not matter.
pub fn id_for_cycle(files: &Vec<String>, project_root: &str) -> (r: String)
    ensures
        r@ == cycle_id(str_views(files@), project_root@),
{
    let rels = relative_paths(files, project_root);
    let sorted = sort_strings(&rels);
    let content = join_strings(&sorted, "|");
    proof {
        reveal_strlit("|");
        assert("|"@ =~= seq!['|']);
    }
    let hash = short_hash(content.as_str());
    let mut id = "cycle:".to_owned();
    append_str(&mut id, hash.as_str());
    id
}

/// The ID of a smell of a whole file.
pub fn id_for_file_smell(file: &str, prefix: &str, project_root: &str) -> (r: String)
    ensures
        r@ == file_smell_id(file@, prefix@, project_root@),
{
    let relative = relative_path(file, project_root);
    let mut id = to_lowercase(prefix);
    push_char(&mut id, ':');
    append_str(&mut id, relative.as_str());
    assert(id@ =~= file_smell_id(file@, prefix@, project_root@));
    id
}

/// The ID of an import from `from_file` into layer `to_layer`.
pub fn id_for_layer_violation(from_file: &str, to_layer: &str, project_root: &str) -> (r: String)
    ensures
        r@ == layer_violation_id(from_file@, to_layer@, project_root@),
{
    let relative = relative_path(from_file, project_root);
    let mut id = "layer:".to_owned();
    append_str(&mut id, relative.as_str());
    push_char(&mut id, ':');
    append_str(&mut id, to_layer);
    assert(id@ =~= layer_violation_id(from_file@, to_layer@, project_root@));
    id
}

/// The ID of a smell of a symbol.
pub fn id_for_symbol_smell(prefix: &str, file: &str, symbol_name: &str, line: usize, project_root: &str) -> (r: String)
    ensures
        r@ == symbol_smell_id(prefix@, file@, symbol_name@, line as nat, project_root@),
{
    let relative = relative_path(file, project_root);
    let mut id = prefix.to_owned();
    push_char(&mut id, ':');
    append_str(&mut id, relative.as_str());
    push_char(&mut id, ':');
    append_str(&mut id, symbol_name);
    push_char(&mut id, ':');
    push_decimal(&mut id, line);
    assert(id@ =~= symbol_smell_id(prefix@, file@, symbol_name@, line as nat, project_root@));
    id
}

/// The ID of a smell of another kind.
pub fn id_generic(smell_type: &str, files: &Vec<String>, extra: &str, project_root: &str) -> (r: String)
    ensures
        r@ == generic_id(smell_type@, str_views(files@), extra@, project_root@),
{
    let rels = relative_paths(files, project_root);
    let mut parts = sort_strings(&rels);
    if extra.unicode_len() > 0 {
        let ghost before = str_views(parts@);
        parts.push(extra.to_owned());
        assert(str_views(parts@) =~= before.push(extra@));
    }
    let content = join_strings(&parts, "|");
    proof {
        reveal_strlit("|");
        assert("|"@ =~= seq!['|']);
    }
    let hash = short_hash(content.as_str());
    let mut id = to_lowercase(smell_type);
    push_char(&mut id, ':');
    append_str(&mut id, hash.as_str());
    assert(id@ =~= generic_id(smell_type@, str_views(files@), extra@, project_root@));
    id
}

/// `id`, with a hash appended where the smell has no line (see `with_fallback`).
fn with_line_hash_fallback(smell: &ArchSmell, id: String) -> (r: String)
    ensures
        r@ == with_fallback(id@, *smell),
{
    let line = if smell.locations.len() > 0 { smell.locations[0].line } else { 0 };
    if line == 0 {
        let input = if smell.locations.len() > 0 {
            smell.locations[0].description.clone()
        } else {
            smell_text_of(smell)
        };
        let hash = short_hash(input.as_str());
        let mut out = id;
        push_char(&mut out, ':');
        append_str(&mut out, hash.as_str());
        assert(out@ =~= with_fallback(id@, *smell));
        out
    } else {
        assert(id@ == with_fallback(id@, *smell));
        id
    }
}

/// Whether the ID of a smell of kind `t` is built from its first file.
pub fn needs_first_file(t: &SmellType) -> (r: bool)
    ensures
        r == uses_first_file(*t),
{
    match t {
        SmellType::GodModule | SmellType::LargeFile | SmellType::UnstableInterface => true,
        SmellType::LayerViolation { .. } | SmellType::DeadSymbol { .. } => true,
        SmellType::HighComplexity { .. } | SmellType::HubModule => true,
        SmellType::LowCohesion { .. } | SmellType::SideEffectImport => true,
        SmellType::TestLeakage { .. } | SmellType::FeatureEnvy { .. } => true,
        SmellType::SharedMutableState { .. } | SmellType::DeepNesting { .. } => true,
        SmellType::LongParameterList { .. } | SmellType::PrimitiveObsession { .. } => true,
        SmellType::OrphanType { .. } => true,
        _ => false,
    }
}

/// The stable ID of `smell`, with paths taken relative to `project_root`.
pub fn generate_smell_id(smell: &ArchSmell, project_root: &str) -> (r: String)
    requires
        uses_first_file(smell.smell_type) ==> smell.files@.len() > 0,
    ensures
        r@ == smell_id(*smell, project_root@),
{
    let line = if smell.locations.len() > 0 { smell.locations[0].line } else { 0 };
    proof {
        reveal_strlit("dead");
        reveal_strlit("cmplx");
        reveal_strlit("hub");
        reveal_strlit("lcom");
        reveal_strlit("shared");
        reveal_strlit("nest");
        reveal_strlit("params");
        reveal_strlit("prim");
        reveal_strlit("orphan");
    }
    let r = match &smell.smell_type {
        SmellType::CyclicDependency | SmellType::CyclicDependencyCluster => id_for_cycle(&smell.files, project_root),
        SmellType::GodModule | SmellType::LargeFile | SmellType::UnstableInterface => {
            let name = smell.smell_type.kind_name();
            id_for_file_smell(smell.files[0].as_str(), name.as_str(), project_root)
        },
        SmellType::LayerViolation { to_layer, .. } => id_for_layer_violation(
            smell.files[0].as_str(),
            to_layer.as_str(),
            project_root,
        ),
        SmellType::DeadSymbol { name, .. } => {
            let id = id_for_symbol_smell("dead", smell.files[0].as_str(), name.as_str(), line, project_root);
            let r = with_line_hash_fallback(smell, id);
            proof {
                assert(r@ == smell_id(*smell, project_root@));
            }
            r
        },
        SmellType::HighComplexity { name, .. } => {
            let id = id_for_symbol_smell("cmplx", smell.files[0].as_str(), name.as_str(), line, project_root);
            let r = with_line_hash_fallback(smell, id);
            proof {
                assert(r@ == smell_id(*smell, project_root@));
            }
            r
        },
        SmellType::HubModule => id_for_file_smell(smell.files[0].as_str(), "hub", project_root),
        SmellType::LowCohesion { class_name, .. } => {
            let id = id_for_symbol_smell("lcom", smell.files[0].as_str(), class_name.as_str(), line, project_root);
            let r = with_line_hash_fallback(smell, id);
            proof {
                assert(r@ == smell_id(*smell, project_root@));
            }
            r
        },
        SmellType::HubDependency { package } => {
            let mut id = "hub_dep:".to_owned();
            append_str(&mut id, package.as_str());
            id
        },
        SmellType::VendorCoupling { package } => {
            let mut id = "vendor:".to_owned();
            append_str(&mut id, package.as_str());
            id
        },
        SmellType::SideEffectImport => {
            let relative = relative_path(smell.files[0].as_str(), project_root);
            let mut id = "sideeffect:".to_owned();
            append_str(&mut id, relative.as_str());
            push_char(&mut id, ':');
            push_decimal(&mut id, line);
            let r = with_line_hash_fallback(smell, id);
            proof {
                assert(r@ == smell_id(*smell, project_root@));
            }
            r
        },
        SmellType::TestLeakage { test_file } => {
            let from_rel = relative_path(smell.files[0].as_str(), project_root);
            let to_rel = relative_path(test_file.as_str(), project_root);
            let mut id = "test_leak:".to_owned();
            append_str(&mut id, from_rel.as_str());
            push_char(&mut id, ':');
            append_str(&mut id, to_rel.as_str());
            id
        },
        SmellType::FeatureEnvy { most_envied_module } => {
            let from_rel = relative_path(smell.files[0].as_str(), project_root);
            let to_rel = relative_path(most_envied_module.as_str(), project_root);
            let mut id = "envy:".to_owned();
            append_str(&mut id, from_rel.as_str());
            push_char(&mut id, ':');
            append_str(&mut id, to_rel.as_str());
            id
        },
        SmellType::SharedMutableState { symbol } => {
            let id = id_for_symbol_smell("shared", smell.files[0].as_str(), symbol.as_str(), line, project_root);
            let r = with_line_hash_fallback(smell, id);
            proof {
                assert(r@ == smell_id(*smell, project_root@));
            }
            r
        },
        SmellType::DeepNesting { name, .. } => {
            let id = id_for_symbol_smell("nest", smell.files[0].as_str(), name.as_str(), line, project_root);
            let r = with_line_hash_fallback(smell, id);
            proof {
                assert(r@ == smell_id(*smell, project_root@));
            }
            r
        },
        SmellType::LongParameterList { name, .. } => {
            let id = id_for_symbol_smell("params", smell.files[0].as_str(), name.as_str(), line, project_root);
            let r = with_line_hash_fallback(smell, id);
            proof {
                assert(r@ == smell_id(*smell, project_root@));
            }
            r
        },
        SmellType::PrimitiveObsession { name, .. } => {
            let id = id_for_symbol_smell("prim", smell.files[0].as_str(), name.as_str(), line, project_root);
            let r = with_line_hash_fallback(smell, id);
            proof {
                assert(r@ == smell_id(*smell, project_root@));
            }
            r
        },
        SmellType::OrphanType { name } => {
            let id = id_for_symbol_smell("orphan", smell.files[0].as_str(), name.as_str(), line, project_root);
            let r = with_line_hash_fallback(smell, id);
            proof {
                assert(r@ == smell_id(*smell, project_root@));
            }
            r
        },
        SmellType::ScatteredConfiguration { env_var, .. } => {
            let mut id = "config:".to_owned();
            append_str(&mut id, env_var.as_str());
            id
        },
        SmellType::CodeClone { clone_hash, .. } => {
            let mut id = "clone:".to_owned();
            append_str(&mut id, clone_hash.as_str());
            id
        },
        _ => {
            let name = smell.smell_type.kind_name();
            proof {
                reveal_strlit("");
                assert(""@ =~= Seq::<char>::empty());
            }
            id_generic(name.as_str(), &smell.files, "", project_root)
        },
    };
    proof {
        if !uses_line_fallback(smell.smell_type) {
            assert(r@ == smell_id(*smell, project_root@));
        }
    }
    r
}

/// The ID of a test leakage names both files: `test_leak:`, the leaking file
/// relative to the root, `:`, and the test file relative to the root.
pub proof fn lemma_test_leak_id(smell: ArchSmell, test_file: String, root: Seq<char>)
    requires
        smell.smell_type == (SmellType::TestLeakage { test_file }),
        smell.files@.len() > 0,
    ensures
        smell_id(smell, root) == "test_leak:"@ + relative_to(smell.files@[0]@, root) + ":"@ + relative_to(test_file@, root),
{
    reveal_strlit(":");
    assert(":"@ =~= seq![':']);
}

/// Two test leakages into the same test file (relative to the root) have one
/// ID exactly when their leaking files have the same path relative to the
/// root: a snapshot tells apart leaks from different files.
pub proof fn lemma_test_leak_ids_tell_files_apart(
    s1: ArchSmell,
    t1: String,
    s2: ArchSmell,
    t2: String,
    root: Seq<char>,
)
    requires
        s1.smell_type == (SmellType::TestLeakage { test_file: t1 }),
        s2.smell_type == (SmellType::TestLeakage { test_file: t2 }),
        s1.files@.len() > 0,
        s2.files@.len() > 0,
        relative_to(t1@, root) == relative_to(t2@, root),
    ensures
        (smell_id(s1, root) == smell_id(s2, root)) <==> (relative_to(s1.files@[0]@, root) == relative_to(s2.files@[0]@, root)),
{
    let p = "test_leak:"@;
    let a = relative_to(s1.files@[0]@, root);
    let b = relative_to(s2.files@[0]@, root);
    let t = relative_to(t1@, root);
    let id1 = smell_id(s1, root);
    let id2 = smell_id(s2, root);
    assert(id1 == p + a + seq![':'] + t);
    assert(id2 == p + b + seq![':'] + t);
    if id1 == id2 {
        assert(a.len() == b.len());
        assert(id1.subrange(p.len() as int, (p.len() + a.len()) as int) =~= a);
        assert(id2.subrange(p.len() as int, (p.len() + b.len()) as int) =~= b);
    }
}

/// The ID of a feature envy names the envious file and the envied module:
/// `envy:`, the file relative to the root, `:`, and the module relative to
/// the root.
pub proof fn lemma_envy_id(smell: ArchSmell, most_envied_module: String, root: Seq<char>)
    requires
        smell.smell_type == (SmellType::FeatureEnvy { most_envied_module }),
        smell.files@.len() > 0,
    ensures
        smell_id(smell, root) == "envy:"@ + relative_to(smell.files@[0]@, root) + ":"@ + relative_to(most_envied_module@, root),
{
    reveal_strlit(":");
    assert(":"@ =~= seq![':']);
}

} // verus!
