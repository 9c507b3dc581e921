//! Architectural smells as the detectors report them: what kind of smell,
//! how severe, which files, the metrics recorded for it, the places in the
//! files, and for a cycle cluster its structure.

use vstd::prelude::*;
use crate::graph::CodeRange;

verus! {

/// How severe a smell is.
#[derive(Debug, Clone, Copy, PartialEq, Eq, Structural)]
pub enum Severity {
    Low,
    Medium,
    High,
    Critical,
}

/// The kind of a smell, with what identifies it.
#[derive(Debug, Clone)]
pub enum SmellType {
    CyclicDependency,
    CyclicDependencyCluster,
    GodModule,
    DeadCode,
    DeadSymbol { name: String, kind: String },
    HighComplexity { name: String, line: usize, complexity: usize },
    HighCyclomaticComplexity { name: String, line: usize, complexity: usize },
    HighCognitiveComplexity { name: String, line: usize, complexity: usize },
    LargeFile,
    UnstableInterface,
    FeatureEnvy { most_envied_module: String },
    ShotgunSurgery,
    HubDependency { package: String },
    OrphanType { name: String },
    TestLeakage { test_file: String },
    LayerViolation { from_layer: String, to_layer: String },
    SdpViolation,
    BarrelFileAbuse,
    VendorCoupling { package: String },
    SideEffectImport,
    HubModule,
    LowCohesion { lcom: usize, class_name: String },
    ScatteredModule { components: usize },
    HighCoupling { cbo: usize },
    PackageCycle { packages: Vec<String> },
    SharedMutableState { symbol: String },
    DeepNesting { name: String, depth: usize, line: usize },
    LongParameterList { count: usize, name: String },
    PrimitiveObsession { primitives: usize, name: String },
    CircularTypeDependency,
    AbstractnessViolation,
    ScatteredConfiguration { env_var: String, files_count: usize },
    CodeClone { clone_hash: String, token_count: usize },
    Unknown { raw_type: String },
}

/// The name of the kind of smell `t`: its variant's name.
pub open spec fn smell_type_name(t: SmellType) -> Seq<char> {
    match t {
        SmellType::CyclicDependency => "CyclicDependency"@,
        SmellType::CyclicDependencyCluster => "CyclicDependencyCluster"@,
        SmellType::GodModule => "GodModule"@,
        SmellType::DeadCode => "DeadCode"@,
        SmellType::DeadSymbol { .. } => "DeadSymbol"@,
        SmellType::HighComplexity { .. } => "HighComplexity"@,
        SmellType::HighCyclomaticComplexity { .. } => "HighCyclomaticComplexity"@,
        SmellType::HighCognitiveComplexity { .. } => "HighCognitiveComplexity"@,
        SmellType::LargeFile => "LargeFile"@,
        SmellType::UnstableInterface => "UnstableInterface"@,
        SmellType::FeatureEnvy { .. } => "FeatureEnvy"@,
        SmellType::ShotgunSurgery => "ShotgunSurgery"@,
        SmellType::HubDependency { .. } => "HubDependency"@,
        SmellType::OrphanType { .. } => "OrphanType"@,
        SmellType::TestLeakage { .. } => "TestLeakage"@,
        SmellType::LayerViolation { .. } => "LayerViolation"@,
        SmellType::SdpViolation => "SdpViolation"@,
        SmellType::BarrelFileAbuse => "BarrelFileAbuse"@,
        SmellType::VendorCoupling { .. } => "VendorCoupling"@,
        SmellType::SideEffectImport => "SideEffectImport"@,
        SmellType::HubModule => "HubModule"@,
        SmellType::LowCohesion { .. } => "LowCohesion"@,
        SmellType::ScatteredModule { .. } => "ScatteredModule"@,
        SmellType::HighCoupling { .. } => "HighCoupling"@,
        SmellType::PackageCycle { .. } => "PackageCycle"@,
        SmellType::SharedMutableState { .. } => "SharedMutableState"@,
        SmellType::DeepNesting { .. } => "DeepNesting"@,
        SmellType::LongParameterList { .. } => "LongParameterList"@,
        SmellType::PrimitiveObsession { .. } => "PrimitiveObsession"@,
        SmellType::CircularTypeDependency => "CircularTypeDependency"@,
        SmellType::AbstractnessViolation => "AbstractnessViolation"@,
        SmellType::ScatteredConfiguration { .. } => "ScatteredConfiguration"@,
        SmellType::CodeClone { .. } => "CodeClone"@,
        SmellType::Unknown { .. } => "Unknown"@,
    }
}

/// The id of the detector that reports smells of kind `t`.
pub open spec fn detector_of(t: SmellType) -> Seq<char> {
    match t {
        SmellType::CyclicDependency => "cyclic_dependency"@,
        SmellType::CyclicDependencyCluster => "cyclic_dependency"@,
        SmellType::GodModule => "god_module"@,
        SmellType::DeadCode => "dead_code"@,
        SmellType::DeadSymbol { .. } => "dead_symbols"@,
        SmellType::HighComplexity { .. } => "complexity"@,
        SmellType::HighCyclomaticComplexity { .. } => "complexity"@,
        SmellType::HighCognitiveComplexity { .. } => "complexity"@,
        SmellType::LargeFile => "large_file"@,
        SmellType::UnstableInterface => "unstable_interface"@,
        SmellType::FeatureEnvy { .. } => "feature_envy"@,
        SmellType::ShotgunSurgery => "shotgun_surgery"@,
        SmellType::HubDependency { .. } => "hub_dependency"@,
        SmellType::OrphanType { .. } => "orphan_types"@,
        SmellType::TestLeakage { .. } => "test_leakage"@,
        SmellType::LayerViolation { .. } => "layer_violation"@,
        SmellType::SdpViolation => "sdp_violation"@,
        SmellType::BarrelFileAbuse => "barrel_file"@,
        SmellType::VendorCoupling { .. } => "vendor_coupling"@,
        SmellType::SideEffectImport => "side_effect_import"@,
        SmellType::HubModule => "hub_module"@,
        SmellType::LowCohesion { .. } => "lcom"@,
        SmellType::ScatteredModule { .. } => "module_cohesion"@,
        SmellType::HighCoupling { .. } => "high_coupling"@,
        SmellType::PackageCycle { .. } => "package_cycles"@,
        SmellType::SharedMutableState { .. } => "shared_mutable_state"@,
        SmellType::DeepNesting { .. } => "deep_nesting"@,
        SmellType::LongParameterList { .. } => "long_params"@,
        SmellType::PrimitiveObsession { .. } => "primitive_obsession"@,
        SmellType::CircularTypeDependency => "circular_type_deps"@,
        SmellType::AbstractnessViolation => "abstractness"@,
        SmellType::ScatteredConfiguration { .. } => "scattered_config"@,
        SmellType::CodeClone { .. } => "code_clone"@,
        SmellType::Unknown { .. } => "unknown"@,
    }
}

impl SmellType {
    /// The id of the detector that reports smells of this kind.
    pub fn detector_id(&self) -> (r: String)
        ensures
            r@ == detector_of(*self),
    {
        match self {
            SmellType::CyclicDependency => "cyclic_dependency".to_owned(),
            SmellType::CyclicDependencyCluster => "cyclic_dependency".to_owned(),
            SmellType::GodModule => "god_module".to_owned(),
            SmellType::DeadCode => "dead_code".to_owned(),
            SmellType::DeadSymbol { .. } => "dead_symbols".to_owned(),
            SmellType::HighComplexity { .. } => "complexity".to_owned(),
            SmellType::HighCyclomaticComplexity { .. } => "complexity".to_owned(),
            SmellType::HighCognitiveComplexity { .. } => "complexity".to_owned(),
            SmellType::LargeFile => "large_file".to_owned(),
            SmellType::UnstableInterface => "unstable_interface".to_owned(),
            SmellType::FeatureEnvy { .. } => "feature_envy".to_owned(),
            SmellType::ShotgunSurgery => "shotgun_surgery".to_owned(),
            SmellType::HubDependency { .. } => "hub_dependency".to_owned(),
            SmellType::OrphanType { .. } => "orphan_types".to_owned(),
            SmellType::TestLeakage { .. } => "test_leakage".to_owned(),
            SmellType::LayerViolation { .. } => "layer_violation".to_owned(),
            SmellType::SdpViolation => "sdp_violation".to_owned(),
            SmellType::BarrelFileAbuse => "barrel_file".to_owned(),
            SmellType::VendorCoupling { .. } => "vendor_coupling".to_owned(),
            SmellType::SideEffectImport => "side_effect_import".to_owned(),
            SmellType::HubModule => "hub_module".to_owned(),
            SmellType::LowCohesion { .. } => "lcom".to_owned(),
            SmellType::ScatteredModule { .. } => "module_cohesion".to_owned(),
            SmellType::HighCoupling { .. } => "high_coupling".to_owned(),
            SmellType::PackageCycle { .. } => "package_cycles".to_owned(),
            SmellType::SharedMutableState { .. } => "shared_mutable_state".to_owned(),
            SmellType::DeepNesting { .. } => "deep_nesting".to_owned(),
            SmellType::LongParameterList { .. } => "long_params".to_owned(),
            SmellType::PrimitiveObsession { .. } => "primitive_obsession".to_owned(),
            SmellType::CircularTypeDependency => "circular_type_deps".to_owned(),
            SmellType::AbstractnessViolation => "abstractness".to_owned(),
            SmellType::ScatteredConfiguration { .. } => "scattered_config".to_owned(),
            SmellType::CodeClone { .. } => "code_clone".to_owned(),
            SmellType::Unknown { .. } => "unknown".to_owned(),
        }
    }

    /// The name of this kind of smell.
    pub fn kind_name(&self) -> (r: String)
        ensures
            r@ == smell_type_name(*self),
    {
        match self {
            SmellType::CyclicDependency => "CyclicDependency".to_owned(),
            SmellType::CyclicDependencyCluster => "CyclicDependencyCluster".to_owned(),
            SmellType::GodModule => "GodModule".to_owned(),
            SmellType::DeadCode => "DeadCode".to_owned(),
            SmellType::DeadSymbol { .. } => "DeadSymbol".to_owned(),
            SmellType::HighComplexity { .. } => "HighComplexity".to_owned(),
            SmellType::HighCyclomaticComplexity { .. } => "HighCyclomaticComplexity".to_owned(),
            SmellType::HighCognitiveComplexity { .. } => "HighCognitiveComplexity".to_owned(),
            SmellType::LargeFile => "LargeFile".to_owned(),
            SmellType::UnstableInterface => "UnstableInterface".to_owned(),
            SmellType::FeatureEnvy { .. } => "FeatureEnvy".to_owned(),
            SmellType::ShotgunSurgery => "ShotgunSurgery".to_owned(),
            SmellType::HubDependency { .. } => "HubDependency".to_owned(),
            SmellType::OrphanType { .. } => "OrphanType".to_owned(),
            SmellType::TestLeakage { .. } => "TestLeakage".to_owned(),
            SmellType::LayerViolation { .. } => "LayerViolation".to_owned(),
            SmellType::SdpViolation => "SdpViolation".to_owned(),
            SmellType::BarrelFileAbuse => "BarrelFileAbuse".to_owned(),
            SmellType::VendorCoupling { .. } => "VendorCoupling".to_owned(),
            SmellType::SideEffectImport => "SideEffectImport".to_owned(),
            SmellType::HubModule => "HubModule".to_owned(),
            SmellType::LowCohesion { .. } => "LowCohesion".to_owned(),
            SmellType::ScatteredModule { .. } => "ScatteredModule".to_owned(),
            SmellType::HighCoupling { .. } => "HighCoupling".to_owned(),
            SmellType::PackageCycle { .. } => "PackageCycle".to_owned(),
            SmellType::SharedMutableState { .. } => "SharedMutableState".to_owned(),
            SmellType::DeepNesting { .. } => "DeepNesting".to_owned(),
            SmellType::LongParameterList { .. } => "LongParameterList".to_owned(),
            SmellType::PrimitiveObsession { .. } => "PrimitiveObsession".to_owned(),
            SmellType::CircularTypeDependency => "CircularTypeDependency".to_owned(),
            SmellType::AbstractnessViolation => "AbstractnessViolation".to_owned(),
            SmellType::ScatteredConfiguration { .. } => "ScatteredConfiguration".to_owned(),
            SmellType::CodeClone { .. } => "CodeClone".to_owned(),
            SmellType::Unknown { .. } => "Unknown".to_owned(),
        }
    }
}

/// A place in a file that a smell points at.
#[derive(Debug, Clone)]
pub struct LocationDetail {
    pub file: String,
    pub line: usize,
    pub column: Option<usize>,
    pub range: Option<CodeRange>,
    pub description: String,
}

impl LocationDetail {
    /// A location at `line` of `file`, with no column or range.
    pub fn new(file: String, line: usize, description: String) -> (r: Self)
        ensures
            r.file == file,
            r.line == line,
            r.column is None,
            r.range is None,
            r.description == description,
    {
        LocationDetail { file, line, column: None, range: None, description }
    }
}

/// The value of a metric: a whole number, a floating-point number held as
/// Rust writes it (`0.5`, `1e20`), or a text.
#[derive(Debug, Clone)]
pub enum MetricArg {
    Int(i64),
    Float(String),
    Text(String),
}

/// A metric that a detector records for a smell: the metric's name (such as
/// `PrimitiveCount`) and its value.
#[derive(Debug, Clone)]
pub struct SmellMetric {
    pub name: String,
    pub value: MetricArg,
}

/// A file of a cycle cluster with many connections.
#[derive(Debug, Clone)]
pub struct HotspotInfo {
    pub file: String,
    pub in_degree: usize,
    pub out_degree: usize,
}

/// An import inside a cycle cluster whose removal breaks many cycles.
#[derive(Debug, Clone)]
pub struct CriticalEdge {
    pub from: String,
    pub to: String,
    pub line: usize,
    pub range: Option<CodeRange>,
    pub impact: String,
}

/// A group of files that import each other in cycles.
#[derive(Debug, Clone)]
pub struct CycleCluster {
    pub files: Vec<String>,
    pub hotspots: Vec<HotspotInfo>,
    pub critical_edges: Vec<CriticalEdge>,
    pub internal_edges: Vec<LocationDetail>,
}

/// A smell that a detector found.
#[derive(Debug, Clone)]
pub struct ArchSmell {
    pub smell_type: SmellType,
    pub severity: Severity,
    pub files: Vec<String>,
    pub metrics: Vec<SmellMetric>,
    pub locations: Vec<LocationDetail>,
    pub cluster: Option<CycleCluster>,
}

/// What a smell means and what to do about it.
#[derive(Debug, Clone)]
pub struct Explanation {
    pub problem: String,
    pub reason: String,
    pub risks: Vec<String>,
    pub recommendations: Vec<String>,
}

} // verus!
