//! The labels and counters of the smells table.

use vstd::prelude::*;
use crate::detectors::{ArchSmell, Explanation, SmellType};
use crate::text::{append_str, decimal, push_decimal};

verus! {

/// A qualitative grade of a project's architecture.
#[derive(Debug, Clone, Copy, PartialEq, Eq, Structural)]
pub enum GradeLevel {
    Excellent,
    Good,
    Fair,
    Moderate,
    Poor,
    Critical,
}

/// The label of a kind of smell in the smells table: its name and, where it
/// has them, the details that tell one instance from another.
pub open spec fn smell_label(t: SmellType) -> Seq<char> {
    match t {
        SmellType::CyclicDependency => "Cyclic Dependency"@,
        SmellType::CyclicDependencyCluster => "Cycle Cluster"@,
        SmellType::GodModule => "God Module"@,
        SmellType::DeadCode => "Dead Code"@,
        SmellType::DeadSymbol { name, .. } => "Dead Symbol\n("@ + name@ + ")"@,
        SmellType::HighComplexity { name, complexity, .. } => "Complexity\n("@ + name@ + ": "@ + decimal(complexity as nat) + ")"@,
        SmellType::HighCyclomaticComplexity { name, complexity, .. } => "Complexity\n("@ + name@ + ": "@ + decimal(complexity as nat) + ")"@,
        SmellType::HighCognitiveComplexity { name, complexity, .. } => "Complexity\n("@ + name@ + ": "@ + decimal(complexity as nat) + ")"@,
        SmellType::LargeFile => "Large File"@,
        SmellType::UnstableInterface => "Unstable Interface"@,
        SmellType::FeatureEnvy { .. } => "Feature Envy"@,
        SmellType::ShotgunSurgery => "Shotgun Surgery"@,
        SmellType::HubDependency { package } => "Hub Dependency\n("@ + package@ + ")"@,
        SmellType::OrphanType { name } => "Orphan Type\n("@ + name@ + ")"@,
        SmellType::TestLeakage { test_file } => "Test Leakage\n("@ + test_file@ + ")"@,
        SmellType::LayerViolation { from_layer, to_layer } => "Layer Violation\n("@ + from_layer@ + " -> "@ + to_layer@ + ")"@,
        SmellType::SdpViolation => "SDP Violation"@,
        SmellType::BarrelFileAbuse => "Barrel File Abuse"@,
        SmellType::VendorCoupling { package } => "Vendor Coupling\n("@ + package@ + ")"@,
        SmellType::SideEffectImport => "Side-Effect Import"@,
        SmellType::HubModule => "Hub Module"@,
        SmellType::LowCohesion { lcom, .. } => "Low Cohesion\n(LCOM: "@ + decimal(lcom as nat) + ")"@,
        SmellType::ScatteredModule { components } => "Scattered Module\n("@ + decimal(components as nat) + " components)"@,
        SmellType::HighCoupling { cbo } => "High Coupling\n(CBO: "@ + decimal(cbo as nat) + ")"@,
        SmellType::PackageCycle { packages } => "Package Cycle\n("@ + decimal(packages@.len()) + " packages)"@,
        SmellType::SharedMutableState { symbol } => "Shared Mutable State\n("@ + symbol@ + ")"@,
        SmellType::DeepNesting { name, depth, .. } => "Deep Nesting\n("@ + name@ + ": depth "@ + decimal(depth as nat) + ")"@,
        SmellType::LongParameterList { count, name } => "Long Parameter List\n("@ + name@ + ": "@ + decimal(count as nat) + " params)"@,
        SmellType::PrimitiveObsession { primitives, name } => "Primitive Obsession\n("@ + name@ + ": "@ + decimal(primitives as nat) + " primitives)"@,
        SmellType::CircularTypeDependency => "Circular Type Dependency"@,
        SmellType::AbstractnessViolation => "Abstractness Violation"@,
        SmellType::ScatteredConfiguration { env_var, files_count } => "Scattered Configuration\n("@ + env_var@ + ": "@ + decimal(files_count as nat) + " files)"@,
        SmellType::CodeClone { .. } => "Code Clone"@,
        SmellType::Unknown { raw_type } => "Unknown Smell ("@ + raw_type@ + ")"@,
    }
}

/// `head`, then `name`, then `tail`.
fn framed(head: &str, name: &str, tail: &str) -> (r: String)
    ensures
        r@ == head@ + name@ + tail@,
{
    let mut s = head.to_owned();
    append_str(&mut s, name);
    append_str(&mut s, tail);
    s
}

/// `head`, then `name`, then `mid`, then the decimal `n`, then `tail`.
fn framed_number(head: &str, name: &str, mid: &str, n: usize, tail: &str) -> (r: String)
    ensures
        r@ == head@ + name@ + mid@ + decimal(n as nat) + tail@,
{
    let mut s = head.to_owned();
    append_str(&mut s, name);
    append_str(&mut s, mid);
    push_decimal(&mut s, n);
    append_str(&mut s, tail);
    assert(s@ =~= head@ + name@ + mid@ + decimal(n as nat) + tail@);
    s
}

/// The label of `smell_type` in the smells table.
pub fn format_smell_type(smell_type: &SmellType) -> (r: String)
    ensures
        r@ == smell_label(*smell_type),
{
    proof {
        reveal_strlit("");
        assert(""@ =~= Seq::<char>::empty());
    }
    match smell_type {
        SmellType::CyclicDependency => "Cyclic Dependency".to_owned(),
        SmellType::CyclicDependencyCluster => "Cycle Cluster".to_owned(),
        SmellType::GodModule => "God Module".to_owned(),
        SmellType::DeadCode => "Dead Code".to_owned(),
        SmellType::DeadSymbol { name, .. } => framed("Dead Symbol\n(", name.as_str(), ")"),
        SmellType::HighComplexity { name, complexity, .. } => framed_number("Complexity\n(", name.as_str(), ": ", *complexity, ")"),
        SmellType::HighCyclomaticComplexity { name, complexity, .. } => framed_number("Complexity\n(", name.as_str(), ": ", *complexity, ")"),
        SmellType::HighCognitiveComplexity { name, complexity, .. } => framed_number("Complexity\n(", name.as_str(), ": ", *complexity, ")"),
        SmellType::LargeFile => "Large File".to_owned(),
        SmellType::UnstableInterface => "Unstable Interface".to_owned(),
        SmellType::FeatureEnvy { .. } => "Feature Envy".to_owned(),
        SmellType::ShotgunSurgery => "Shotgun Surgery".to_owned(),
        SmellType::HubDependency { package } => framed("Hub Dependency\n(", package.as_str(), ")"),
        SmellType::OrphanType { name } => framed("Orphan Type\n(", name.as_str(), ")"),
        SmellType::TestLeakage { test_file } => framed("Test Leakage\n(", test_file.as_str(), ")"),
        SmellType::LayerViolation { from_layer, to_layer } => {
            let mut s = framed("Layer Violation\n(", from_layer.as_str(), " -> ");
            append_str(&mut s, to_layer.as_str());
            append_str(&mut s, ")");
            s
        },
        SmellType::SdpViolation => "SDP Violation".to_owned(),
        SmellType::BarrelFileAbuse => "Barrel File Abuse".to_owned(),
        SmellType::VendorCoupling { package } => framed("Vendor Coupling\n(", package.as_str(), ")"),
        SmellType::SideEffectImport => "Side-Effect Import".to_owned(),
        SmellType::HubModule => "Hub Module".to_owned(),
        SmellType::LowCohesion { lcom, .. } => {
            let s = framed_number("Low Cohesion\n(LCOM: ", "", "", *lcom, ")");
            assert(s@ =~= smell_label(*smell_type));
            s
        },
        SmellType::ScatteredModule { components } => {
            let s = framed_number("Scattered Module\n(", "", "", *components, " components)");
            assert(s@ =~= smell_label(*smell_type));
            s
        },
        SmellType::HighCoupling { cbo } => {
            let s = framed_number("High Coupling\n(CBO: ", "", "", *cbo, ")");
            assert(s@ =~= smell_label(*smell_type));
            s
        },
        SmellType::PackageCycle { packages } => {
            let s = framed_number("Package Cycle\n(", "", "", packages.len(), " packages)");
            assert(s@ =~= smell_label(*smell_type));
            s
        },
        SmellType::SharedMutableState { symbol } => framed("Shared Mutable State\n(", symbol.as_str(), ")"),
        SmellType::DeepNesting { name, depth, .. } => framed_number("Deep Nesting\n(", name.as_str(), ": depth ", *depth, ")"),
        SmellType::LongParameterList { count, name } => framed_number("Long Parameter List\n(", name.as_str(), ": ", *count, " params)"),
        SmellType::PrimitiveObsession { primitives, name } => framed_number("Primitive Obsession\n(", name.as_str(), ": ", *primitives, " primitives)"),
        SmellType::CircularTypeDependency => "Circular Type Dependency".to_owned(),
        SmellType::AbstractnessViolation => "Abstractness Violation".to_owned(),
        SmellType::ScatteredConfiguration { env_var, files_count } => framed_number("Scattered Configuration\n(", env_var.as_str(), ": ", *files_count, " files)"),
        SmellType::CodeClone { .. } => "Code Clone".to_owned(),
        SmellType::Unknown { raw_type } => framed("Unknown Smell (", raw_type.as_str(), ")"),
    }
}

/// The counters of the summary, one per kind of smell that has one.
#[derive(Debug, Clone, Copy, PartialEq, Eq, Structural)]
pub struct SmellCounts {
    pub cyclic_dependencies: usize,
    pub god_modules: usize,
    pub dead_code: usize,
    pub dead_symbols: usize,
    pub high_complexity_functions: usize,
    pub large_files: usize,
    pub unstable_interfaces: usize,
    pub feature_envy: usize,
    pub shotgun_surgery: usize,
    pub hub_dependencies: usize,
    pub code_clones: usize,
}

/// The counters that a kind of smell adds to.
pub enum Counter {
    Cycles,
    GodModules,
    DeadCode,
    DeadSymbols,
    HighComplexity,
    LargeFiles,
    UnstableInterfaces,
    FeatureEnvy,
    ShotgunSurgery,
    HubDependencies,
    CodeClones,
}

/// The counter that smells of kind `t` add to, if any.
pub open spec fn counter_of(t: SmellType) -> Option<Counter> {
    match t {
        SmellType::CyclicDependency | SmellType::CyclicDependencyCluster => Some(Counter::Cycles),
        SmellType::GodModule => Some(Counter::GodModules),
        SmellType::DeadCode => Some(Counter::DeadCode),
        SmellType::DeadSymbol { .. } => Some(Counter::DeadSymbols),
        SmellType::HighComplexity { .. } => Some(Counter::HighComplexity),
        SmellType::LargeFile => Some(Counter::LargeFiles),
        SmellType::UnstableInterface => Some(Counter::UnstableInterfaces),
        SmellType::FeatureEnvy { .. } => Some(Counter::FeatureEnvy),
        SmellType::ShotgunSurgery => Some(Counter::ShotgunSurgery),
        SmellType::HubDependency { .. } => Some(Counter::HubDependencies),
        SmellType::CodeClone { .. } => Some(Counter::CodeClones),
        _ => None,
    }
}

/// How many of `smells` add to counter `c`.
pub open spec fn count_of(smells: Seq<(ArchSmell, Explanation)>, c: Counter) -> nat
    decreases smells.len(),
{
    if smells.len() == 0 {
        0
    } else {
        count_of(smells.drop_last(), c) + if counter_of(smells.last().0.smell_type) == Some(c) {
            1nat
        } else {
            0nat
        }
    }
}

/// Whether `counts` holds, for each counter, how many of `smells` add to it.
pub open spec fn counts_match(counts: SmellCounts, smells: Seq<(ArchSmell, Explanation)>) -> bool {
    &&& counts.cyclic_dependencies == count_of(smells, Counter::Cycles)
    &&& counts.god_modules == count_of(smells, Counter::GodModules)
    &&& counts.dead_code == count_of(smells, Counter::DeadCode)
    &&& counts.dead_symbols == count_of(smells, Counter::DeadSymbols)
    &&& counts.high_complexity_functions == count_of(smells, Counter::HighComplexity)
    &&& counts.large_files == count_of(smells, Counter::LargeFiles)
    &&& counts.unstable_interfaces == count_of(smells, Counter::UnstableInterfaces)
    &&& counts.feature_envy == count_of(smells, Counter::FeatureEnvy)
    &&& counts.shotgun_surgery == count_of(smells, Counter::ShotgunSurgery)
    &&& counts.hub_dependencies == count_of(smells, Counter::HubDependencies)
    &&& counts.code_clones == count_of(smells, Counter::CodeClones)
}

proof fn lemma_count_of_bound(smells: Seq<(ArchSmell, Explanation)>, c: Counter)
    ensures
        count_of(smells, c) <= smells.len(),
    decreases smells.len(),
{
    if smells.len() > 0 {
        lemma_count_of_bound(smells.drop_last(), c);
    }
}

impl SmellCounts {
    /// All counters at zero.
    pub fn new() -> (r: Self)
        ensures
            counts_match(r, Seq::empty()),
    {
        SmellCounts {
            cyclic_dependencies: 0,
            god_modules: 0,
            dead_code: 0,
            dead_symbols: 0,
            high_complexity_functions: 0,
            large_files: 0,
            unstable_interfaces: 0,
            feature_envy: 0,
            shotgun_surgery: 0,
            hub_dependencies: 0,
            code_clones: 0,
        }
    }

    /// Recomputes every counter from `smells`.
    pub fn update_counts(&mut self, smells: &[(ArchSmell, Explanation)])
        ensures
            counts_match(*final(self), smells@),
    {
        *self = SmellCounts::new();
        let mut i: usize = 0;
        while i < smells.len()
            invariant
                i <= smells@.len(),
                counts_match(*self, smells@.take(i as int)),
            decreases smells@.len() - i,
        {
            let ghost pre = smells@.take(i as int);
            proof {
                assert(smells@.take(i + 1).drop_last() =~= pre);
                lemma_count_of_bound(pre, Counter::Cycles);
                lemma_count_of_bound(pre, Counter::GodModules);
                lemma_count_of_bound(pre, Counter::DeadCode);
                lemma_count_of_bound(pre, Counter::DeadSymbols);
                lemma_count_of_bound(pre, Counter::HighComplexity);
                lemma_count_of_bound(pre, Counter::LargeFiles);
                lemma_count_of_bound(pre, Counter::UnstableInterfaces);
                lemma_count_of_bound(pre, Counter::FeatureEnvy);
                lemma_count_of_bound(pre, Counter::ShotgunSurgery);
                lemma_count_of_bound(pre, Counter::HubDependencies);
                lemma_count_of_bound(pre, Counter::CodeClones);
            }
            match &smells[i].0.smell_type {
                SmellType::CyclicDependency | SmellType::CyclicDependencyCluster => {
                    self.cyclic_dependencies = self.cyclic_dependencies + 1;
                },
                SmellType::GodModule => self.god_modules = self.god_modules + 1,
                SmellType::DeadCode => self.dead_code = self.dead_code + 1,
                SmellType::DeadSymbol { .. } => self.dead_symbols = self.dead_symbols + 1,
                SmellType::HighComplexity { .. } => {
                    self.high_complexity_functions = self.high_complexity_functions + 1;
                },
                SmellType::LargeFile => self.large_files = self.large_files + 1,
                SmellType::UnstableInterface => self.unstable_interfaces = self.unstable_interfaces + 1,
                SmellType::FeatureEnvy { .. } => self.feature_envy = self.feature_envy + 1,
                SmellType::ShotgunSurgery => self.shotgun_surgery = self.shotgun_surgery + 1,
                SmellType::HubDependency { .. } => self.hub_dependencies = self.hub_dependencies + 1,
                SmellType::CodeClone { .. } => self.code_clones = self.code_clones + 1,
                _ => {},
            }
            i = i + 1;
        }
        assert(smells@.take(smells@.len() as int) =~= smells@);
    }
}

} // verus!
