//! Contract descriptors as declared in schema files, and their validation.
use vstd::prelude::*;
use crate::text::{cat, is_blank, is_blank_seq, str_eq};

verus! {

#[derive(Debug, Clone, PartialEq, Eq, Structural)]
pub enum ArtifactFamily {
    StructureArtifact,
    FactEnvelope,
    DecisionEnvelope,
    Action,
    Record,
}

#[derive(Debug, Clone, PartialEq, Eq, Structural)]
pub enum OperatorClass {
    Kernel,
    Boundary,
}

#[derive(Debug, Clone, PartialEq, Eq, Structural)]
pub enum UrosSystem {
    GeneralTheory,
    Kernel,
    ArtifactFamilies,
    Runtime,
    Codex,
    Encyclopedia,
    LevelSystem,
    Tiers,
    OperatorLevels,
}

#[derive(Debug, Clone, PartialEq, Eq, Structural)]
pub enum RegistryKind {
    Codex,
    Encyclopedia,
}

#[derive(Debug, Clone, PartialEq, Eq)]
pub struct ExpressivityCoordinate {
    pub domain: String,
    pub operator_height: Option<u16>,
    pub meta_height: Option<u16>,
}

#[derive(Debug, Clone, PartialEq, Eq)]
pub struct UrosBlock {
    pub system: UrosSystem,
    pub subsystem: String,
    pub artifact_family: ArtifactFamily,
    pub registry: RegistryKind,
    pub domain: String,
    pub tier: u8,
    pub operator_height: Option<u16>,
    pub meta_height: Option<u16>,
}

#[derive(Debug, Clone, PartialEq, Eq, Structural)]
pub enum AuthorityLayer {
    Structure,
    Fact,
    Judgment,
    Action,
    Record,
    Runtime,
}

#[derive(Debug, Clone, PartialEq, Eq)]
pub struct ConstitutionalBlock {
    pub paper_dependencies: Vec<String>,
    pub emits: ArtifactFamily,
    pub authority_layer: AuthorityLayer,
    pub forbidden_later_layers: Vec<AuthorityLayer>,
    pub replay_certificates: Vec<String>,
}

/// A validation outcome: `Ok` when no message is due, else the message.
pub open spec fn reports(r: Result<(), String>, e: Option<Seq<char>>) -> bool {
    match e {
        None => r is Ok,
        Some(m) => r matches Err(s) && s@ == m,
    }
}

fn fail(msg: &str) -> (r: Result<(), String>)
    ensures reports(r, Some(msg@)),
{
    Err(String::from_str(msg))
}

/// The first rule a constitution breaks, if any.
pub open spec fn constitution_error(c: ConstitutionalBlock) -> Option<Seq<char>> {
    if c.forbidden_later_layers@.contains(c.authority_layer) {
        Some("constitution cannot forbid its own authority layer"@)
    } else if c.emits == ArtifactFamily::Action
        && (c.authority_layer == AuthorityLayer::Structure || c.authority_layer == AuthorityLayer::Fact) {
        Some("Structure/Fact authority cannot emit Action artifacts"@)
    } else if c.emits == ArtifactFamily::DecisionEnvelope
        && (c.authority_layer == AuthorityLayer::Structure || c.authority_layer == AuthorityLayer::Fact) {
        Some("Structure/Fact authority cannot emit Decision artifacts"@)
    } else if (c.authority_layer == AuthorityLayer::Structure || c.authority_layer == AuthorityLayer::Fact)
        && c.paper_dependencies@.len() == 0 {
        Some("Structure and Fact layers require at least one paper_dependency"@)
    } else if !c.replay_certificates@.map_values(|s: String| s@).contains("schema_hash"@) {
        Some("constitution must require 'schema_hash' certificate"@)
    } else {
        None
    }
}

impl ConstitutionalBlock {
    /// Checks the constitution's rules in order: forbidden mixes, paper
    /// dependencies, certificate requirements.
    pub fn validate(&self) -> (r: Result<(), String>)
        ensures reports(r, constitution_error(*self)),
    {
        let a = self.validate_forbidden_mixes();
        if a.is_err() {
            return a;
        }
        let b = self.validate_paper_dependencies();
        if b.is_err() {
            return b;
        }
        self.validate_certificate_requirements()
    }

    fn validate_forbidden_mixes(&self) -> (r: Result<(), String>)
        ensures
            r is Err ==> reports(r, constitution_error(*self)),
            r is Ok ==> !self.forbidden_later_layers@.contains(self.authority_layer)
                && !(self.emits == ArtifactFamily::Action
                    && (self.authority_layer == AuthorityLayer::Structure || self.authority_layer == AuthorityLayer::Fact))
                && !(self.emits == ArtifactFamily::DecisionEnvelope
                    && (self.authority_layer == AuthorityLayer::Structure || self.authority_layer == AuthorityLayer::Fact)),
    {
        let mut i: usize = 0;
        while i < self.forbidden_later_layers.len()
            invariant
                i <= self.forbidden_later_layers@.len(),
                forall|k: int| 0 <= k < i ==> self.forbidden_later_layers@[k] != self.authority_layer,
            decreases self.forbidden_later_layers.len() - i,
        {
            if self.forbidden_later_layers[i] == self.authority_layer {
                assert(self.forbidden_later_layers@.contains(self.authority_layer));
                return fail("constitution cannot forbid its own authority layer");
            }
            i += 1;
        }
        let low = self.authority_layer == AuthorityLayer::Structure || self.authority_layer == AuthorityLayer::Fact;
        if low && self.emits == ArtifactFamily::Action {
            return fail("Structure/Fact authority cannot emit Action artifacts");
        }
        if low && self.emits == ArtifactFamily::DecisionEnvelope {
            return fail("Structure/Fact authority cannot emit Decision artifacts");
        }
        Ok(())
    }

    fn validate_paper_dependencies(&self) -> (r: Result<(), String>)
        ensures
            r is Err <==> (self.authority_layer == AuthorityLayer::Structure || self.authority_layer == AuthorityLayer::Fact)
                && self.paper_dependencies@.len() == 0,
            r is Err ==> reports(r, Some("Structure and Fact layers require at least one paper_dependency"@)),
    {
        if (self.authority_layer == AuthorityLayer::Structure || self.authority_layer == AuthorityLayer::Fact)
            && self.paper_dependencies.len() == 0 {
            return fail("Structure and Fact layers require at least one paper_dependency");
        }
        Ok(())
    }

    fn validate_certificate_requirements(&self) -> (r: Result<(), String>)
        ensures
            r is Err <==> !self.replay_certificates@.map_values(|s: String| s@).contains("schema_hash"@),
            r is Err ==> reports(r, Some("constitution must require 'schema_hash' certificate"@)),
    {
        let ghost v = self.replay_certificates@.map_values(|s: String| s@);
        let mut i: usize = 0;
        while i < self.replay_certificates.len()
            invariant
                i <= self.replay_certificates@.len(),
                v == self.replay_certificates@.map_values(|s: String| s@),
                forall|k: int| 0 <= k < i ==> v[k] != "schema_hash"@,
            decreases self.replay_certificates.len() - i,
        {
            if str_eq(self.replay_certificates[i].as_str(), "schema_hash") {
                assert(v[i as int] == "schema_hash"@);
                return Ok(());
            }
            i += 1;
        }
        fail("constitution must require 'schema_hash' certificate")
    }
}

#[derive(Debug, Clone, PartialEq, Eq, Default)]
pub struct SignatureBlock {
    pub input: Option<String>,
    pub output: Option<String>,
}

#[derive(Debug, Clone, PartialEq, Eq, Default)]
pub struct RequiresBlock {
    pub licenses: Vec<String>,
    pub declarations: Vec<String>,
}

#[derive(Debug, Clone, PartialEq, Eq, Default)]
pub struct ValidationBlock {
    pub validators: Vec<String>,
}

#[derive(Debug, Clone, PartialEq, Eq, Default)]
pub struct WitnessesBlock {
    pub required: Vec<String>,
}

#[derive(Debug, Clone, PartialEq, Eq, Default)]
pub struct ReplayBlock {
    pub required: Vec<String>,
}

#[derive(Debug, Clone, PartialEq, Eq, Default)]
pub struct LawRequirementsBlock {
    pub required: Vec<String>,
}

#[derive(Debug, Clone, Copy, PartialEq, Eq, Structural)]
pub enum Kind {
    OperatingSystemDoctrine,
    ContractConstitution,
    GlobalTaxonomy,
    BaseType,
    Lambda,
    Reducer,
    Transform,
    Adapter,
    AlgebraLaw,
    ValidationUnit,
    AnalysisUnit,
    MetaRule,
    Engine,
    Pipeline,
    Runtime,
    TraceArtifact,
    PolicyArtifact,
    ActionExecutor,
    BoundaryOp,
    CoboundaryOp,
    EvaluatorUnit,
    SearchUnit,
    SolverUnit,
    DiagnosticUnit,
    ObservableUnit,
    CertificateArtifact,
    HealthUnit,
    MeasurementUnit,
    WitnessArtifact,
    ObstructionUnit,
    LiftUnit,
    ReplayArtifact,
    KernelArtifact,
    ForgetfulOp,
    GaugeOp,
    TensorOp,
}

#[derive(Debug, Clone, Copy, PartialEq, Eq, Structural)]
pub enum PhiLawDecl {
    NonIncreasing,
    Reducing,
    Unrestricted,
}

#[derive(Debug, Clone, Copy, PartialEq, Eq, Structural)]
pub enum StructureLawDecl {
    Preserving,
    Reductive,
    Transforming,
}

#[derive(Debug, Clone, Copy, PartialEq, Eq, Structural)]
pub enum EffectLawDecl {
    Pure,
    ReadOnly,
    Stateful,
}

/// Unambiguous law presence: `Required(T)` means the law must hold,
/// `Forbidden` that it must not be declared. There is no unknown state.
#[derive(Debug, Clone, PartialEq, Eq)]
pub enum LawPresence<T> {
    Required(T),
    Forbidden,
}

impl<T> LawPresence<T> {
    /// Whether the law is required.
    pub fn is_required(&self) -> (r: bool)
        ensures r == self is Required,
    {
        match self {
            LawPresence::Required(_) => true,
            LawPresence::Forbidden => false,
        }
    }

    /// The required law, if any.
    pub fn as_option(&self) -> (r: Option<&T>)
        ensures
            match self {
                LawPresence::Required(v) => r == Some(v),
                LawPresence::Forbidden => r is None,
            },
    {
        match self {
            LawPresence::Required(v) => Some(v),
            LawPresence::Forbidden => None,
        }
    }
}

impl<T> Default for LawPresence<T> {
    fn default() -> (r: Self)
        ensures r is Forbidden,
    {
        LawPresence::Forbidden
    }
}

/// The law presence an optional law stands for.
pub open spec fn presence_of<T>(opt: Option<T>) -> LawPresence<T> {
    match opt {
        Some(v) => LawPresence::Required(v),
        None => LawPresence::Forbidden,
    }
}

impl<T> From<Option<T>> for LawPresence<T> {
    fn from(opt: Option<T>) -> (r: Self)
        ensures r == presence_of(opt),
    {
        match opt {
            Some(v) => LawPresence::Required(v),
            None => LawPresence::Forbidden,
        }
    }
}

impl<T> vstd::std_specs::convert::FromSpecImpl<Option<T>> for LawPresence<T> {
    open spec fn obeys_from_spec() -> bool {
        true
    }

    open spec fn from_spec(opt: Option<T>) -> Self {
        presence_of(opt)
    }
}

#[derive(Debug, Clone, PartialEq, Eq)]
pub struct LawBlock {
    pub phi: LawPresence<PhiLawDecl>,
    pub structure: LawPresence<StructureLawDecl>,
    pub effect: LawPresence<EffectLawDecl>,
    pub required: Vec<String>,
}

#[derive(Debug, Clone, Default)]
pub struct ConstraintBlock {
    pub total_over_domain: Option<bool>,
    pub deterministic: Option<bool>,
    pub search_forbidden: Option<bool>,
    pub hidden_state_forbidden: Option<bool>,
    pub iteration_forbidden: Option<bool>,
    pub mutation_forbidden: Option<bool>,
    pub read_only: Option<bool>,
    pub typed_output_required: Option<bool>,
    pub operator_execution_forbidden: Option<bool>,
    pub runtime_orchestration_forbidden: Option<bool>,
    pub immutable_after_emit: Option<bool>,
    pub policy_version_required: Option<bool>,
}

#[derive(Debug, Clone)]
pub struct ContractDescriptor {
    pub id: String,
    pub name: String,
    pub kind: Kind,

    pub domain_type: Option<String>,
    pub codomain_type: Option<String>,
    pub subject_type: Option<String>,
    pub runtime_state_type: Option<String>,

    pub governed_layer: Option<Kind>,
    pub decision_scope: Option<Vec<String>>,

    pub laws: Option<LawBlock>,

    /// Algebra-layer law declarations (string-based, distinct from the
    /// operator law block).
    pub algebra_laws: Option<Vec<String>>,

    /// Algebra-layer governed layer label (string-based, e.g. "1_Scalars").
    pub governed_algebra_layer: Option<String>,

    pub constitution: Option<ConstitutionalBlock>,
    pub operator_class: Option<OperatorClass>,
    pub signature: Option<SignatureBlock>,
    pub requirements: Option<RequiresBlock>,
    pub validation: Option<ValidationBlock>,
    pub witnesses: Option<WitnessesBlock>,
    pub replay: Option<ReplayBlock>,
    pub forbidden: Vec<String>,
    pub uros: Option<UrosBlock>,

    pub constraints: ConstraintBlock,
}

/// The first rule a lambda descriptor breaks.
pub open spec fn lambda_error(d: ContractDescriptor) -> Option<Seq<char>> {
    match d.laws {
        None => Some("lambda requires laws"@),
        Some(l) => if l.phi != LawPresence::Required(PhiLawDecl::NonIncreasing) {
            Some("lambda must have phi=NonIncreasing"@)
        } else if l.structure != LawPresence::Required(StructureLawDecl::Preserving) {
            Some("lambda must have structure=Preserving"@)
        } else if l.effect != LawPresence::Required(EffectLawDecl::Pure) {
            Some("lambda must have effect=Pure"@)
        } else if d.domain_type is None || d.codomain_type is None {
            Some("lambda requires domain_type and codomain_type"@)
        } else if d.constraints.search_forbidden != Some(true) {
            Some("lambda must forbid search"@)
        } else if d.constraints.hidden_state_forbidden != Some(true) {
            Some("lambda must forbid hidden state"@)
        } else {
            None
        },
    }
}

/// The first rule a reducer descriptor breaks.
pub open spec fn reducer_error(d: ContractDescriptor) -> Option<Seq<char>> {
    match d.laws {
        None => Some("reducer requires laws"@),
        Some(l) => if l.phi != LawPresence::Required(PhiLawDecl::Reducing) {
            Some("reducer must have phi=Reducing"@)
        } else if l.structure != LawPresence::Required(StructureLawDecl::Reductive) {
            Some("reducer must have structure=Reductive"@)
        } else if l.effect != LawPresence::Required(EffectLawDecl::Pure) {
            Some("reducer must have effect=Pure"@)
        } else if d.domain_type is None || d.codomain_type is None {
            Some("reducer requires domain_type and codomain_type"@)
        } else {
            None
        },
    }
}

/// The first rule a transform descriptor breaks.
pub open spec fn transform_error(d: ContractDescriptor) -> Option<Seq<char>> {
    match d.laws {
        None => Some("transform requires laws"@),
        Some(l) => if l.phi != LawPresence::Required(PhiLawDecl::Unrestricted) {
            Some("transform must have phi=Unrestricted"@)
        } else if l.structure != LawPresence::Required(StructureLawDecl::Transforming) {
            Some("transform must have structure=Transforming"@)
        } else if l.effect != LawPresence::Required(EffectLawDecl::Pure) {
            Some("transform must have effect=Pure"@)
        } else if d.domain_type is None || d.codomain_type is None {
            Some("transform requires domain_type and codomain_type"@)
        } else {
            None
        },
    }
}

/// The first rule an adapter descriptor breaks.
pub open spec fn adapter_error(d: ContractDescriptor) -> Option<Seq<char>> {
    if d.domain_type is None || d.codomain_type is None {
        Some("adapter requires source and target types"@)
    } else if d.laws is Some {
        Some("adapter must not declare operator laws"@)
    } else if d.subject_type is Some {
        Some("adapter must not declare subject_type"@)
    } else if d.runtime_state_type is Some {
        Some("adapter must not declare runtime_state_type"@)
    } else if d.governed_layer is Some || d.decision_scope is Some {
        Some("adapter must not declare governed_layer or decision_scope"@)
    } else {
        None
    }
}

/// The first rule a validation unit descriptor breaks.
pub open spec fn validation_error(d: ContractDescriptor) -> Option<Seq<char>> {
    if d.subject_type is None {
        Some("validation unit requires subject_type"@)
    } else if d.constraints.read_only != Some(true) {
        Some("validation must be read-only"@)
    } else if d.constraints.mutation_forbidden != Some(true) {
        Some("validation must forbid mutation"@)
    } else if d.constraints.typed_output_required != Some(true) {
        Some("validation must require typed output"@)
    } else {
        None
    }
}

/// The first rule an analysis unit descriptor breaks.
pub open spec fn analysis_error(d: ContractDescriptor) -> Option<Seq<char>> {
    if d.subject_type is None {
        Some("analysis unit requires subject_type"@)
    } else if d.constraints.read_only != Some(true) {
        Some("analysis must be read-only"@)
    } else if d.constraints.operator_execution_forbidden != Some(true) {
        Some("analysis must not execute operators"@)
    } else {
        None
    }
}

/// The first rule a meta rule descriptor breaks.
pub open spec fn meta_error(d: ContractDescriptor) -> Option<Seq<char>> {
    if d.subject_type is None {
        Some("meta rule requires subject_type"@)
    } else if d.constraints.operator_execution_forbidden != Some(true) {
        Some("meta must not execute operators"@)
    } else if d.constraints.runtime_orchestration_forbidden != Some(true) {
        Some("meta must not orchestrate runtime"@)
    } else {
        None
    }
}

/// The first rule an engine descriptor breaks.
pub open spec fn engine_error(d: ContractDescriptor) -> Option<Seq<char>> {
    match d.laws {
        None => Some("engine requires laws"@),
        Some(l) => if l.effect != LawPresence::Required(EffectLawDecl::Stateful) {
            Some("engine must have effect=Stateful"@)
        } else if d.runtime_state_type is None {
            Some("engine requires runtime_state_type"@)
        } else if d.constraints.iteration_forbidden == Some(true) {
            Some("engine must allow iteration"@)
        } else {
            None
        },
    }
}

/// The first rule a pipeline descriptor breaks.
pub open spec fn pipeline_error(d: ContractDescriptor) -> Option<Seq<char>> {
    if d.runtime_state_type is None {
        Some("pipeline requires pipeline_state"@)
    } else if d.constraints.operator_execution_forbidden != Some(true) {
        Some("pipeline must not execute operators directly"@)
    } else {
        None
    }
}

/// The first rule a runtime descriptor breaks.
pub open spec fn runtime_error(d: ContractDescriptor) -> Option<Seq<char>> {
    if d.runtime_state_type is None {
        Some("runtime requires runtime_state_type"@)
    } else if d.constraints.operator_execution_forbidden != Some(true) {
        Some("runtime must not execute operators directly"@)
    } else {
        None
    }
}

/// The first rule a trace artifact descriptor breaks.
pub open spec fn trace_error(d: ContractDescriptor) -> Option<Seq<char>> {
    if d.constraints.immutable_after_emit != Some(true) {
        Some("trace must be immutable after emit"@)
    } else if d.constraints.mutation_forbidden != Some(true) {
        Some("trace must forbid mutation"@)
    } else {
        None
    }
}

/// The first rule a policy artifact descriptor breaks.
pub open spec fn policy_error(d: ContractDescriptor) -> Option<Seq<char>> {
    if d.governed_layer is None {
        Some("policy must declare governed_layer"@)
    } else if d.decision_scope is None {
        Some("policy must declare decision_scope"@)
    } else if d.constraints.policy_version_required != Some(true) {
        Some("policy must declare versioning"@)
    } else {
        None
    }
}

/// The first rule a boundary or coboundary operator descriptor breaks;
/// `what` names the operator in the messages.
pub open spec fn kernel_op_error(d: ContractDescriptor, what: Seq<char>) -> Option<Seq<char>> {
    if d.operator_class != Some(OperatorClass::Kernel) {
        Some(what + " op must be kernel class"@)
    } else if d.signature is None {
        Some(what + " op must define a signature"@)
    } else if d.requirements is None {
        Some(what + " op must define requires block with licenses"@)
    } else {
        None
    }
}

/// The first rule an action executor descriptor breaks.
pub open spec fn action_executor_error(d: ContractDescriptor) -> Option<Seq<char>> {
    match d.laws {
        None => Some("action executor requires laws"@),
        Some(l) => if l.effect != LawPresence::Required(EffectLawDecl::Stateful) {
            Some("action executor must have effect=Stateful"@)
        } else if d.subject_type is None {
            Some("action executor requires subject_type"@)
        } else if d.constraints.typed_output_required != Some(true) {
            Some("action executor must require typed_output_required"@)
        } else {
            None
        },
    }
}

/// The first rule a base type descriptor breaks.
pub open spec fn base_type_error(d: ContractDescriptor) -> Option<Seq<char>> {
    if d.domain_type is Some || d.codomain_type is Some {
        Some("base type must not declare domain/codomain"@)
    } else if d.laws is Some {
        Some("base type must not declare laws"@)
    } else if d.subject_type is Some {
        Some("base type must not declare subject_type"@)
    } else if d.runtime_state_type is Some {
        Some("base type must not declare runtime_state_type"@)
    } else if d.governed_layer is Some || d.decision_scope is Some {
        Some("base type must not declare governed_layer or decision_scope"@)
    } else {
        None
    }
}

/// The first rule an algebra law descriptor breaks.
pub open spec fn algebra_error(d: ContractDescriptor) -> Option<Seq<char>> {
    if d.laws is Some {
        Some("algebra law must not use LawBlock (operator layer)"@)
    } else if d.runtime_state_type is Some {
        Some("algebra law must not declare runtime_state_type"@)
    } else if d.governed_layer is Some {
        Some("algebra law must use governed_algebra_layer, not governed_layer"@)
    } else {
        None
    }
}

/// The first rule of its kind that a descriptor breaks.
pub open spec fn kind_error(d: ContractDescriptor) -> Option<Seq<char>> {
    match d.kind {
        Kind::BaseType => base_type_error(d),
        Kind::Lambda => lambda_error(d),
        Kind::Reducer => reducer_error(d),
        Kind::Transform => transform_error(d),
        Kind::Adapter => adapter_error(d),
        Kind::ValidationUnit => validation_error(d),
        Kind::AnalysisUnit => analysis_error(d),
        Kind::MetaRule => meta_error(d),
        Kind::Engine => engine_error(d),
        Kind::Pipeline => pipeline_error(d),
        Kind::Runtime => runtime_error(d),
        Kind::TraceArtifact => trace_error(d),
        Kind::PolicyArtifact => policy_error(d),
        Kind::ActionExecutor => action_executor_error(d),
        Kind::BoundaryOp => kernel_op_error(d, "boundary"@),
        Kind::CoboundaryOp => kernel_op_error(d, "coboundary"@),
        Kind::AlgebraLaw => algebra_error(d),
        _ => None,
    }
}

/// The first rule common to all descriptors that a descriptor breaks.
pub open spec fn common_error(d: ContractDescriptor) -> Option<Seq<char>> {
    if is_blank_seq(d.id@) {
        Some("contract id must not be empty"@)
    } else if is_blank_seq(d.name@) {
        Some("contract name must not be empty"@)
    } else {
        match d.constitution {
            Some(c) => match constitution_error(c) {
                Some(e) => Some("constitution error: "@ + e),
                None => None,
            },
            None => None,
        }
    }
}

/// The first rule a descriptor breaks: the common rules, then its kind's.
pub open spec fn descriptor_error(d: ContractDescriptor) -> Option<Seq<char>> {
    match common_error(d) {
        Some(e) => Some(e),
        None => kind_error(d),
    }
}

fn is_true(b: Option<bool>) -> (r: bool)
    ensures r == (b == Some(true)),
{
    match b {
        Some(v) => v,
        None => false,
    }
}

impl ContractDescriptor {
    /// Validates the descriptor: the common rules, then the rules of its kind.
    pub fn validate(&self) -> (r: Result<(), String>)
        ensures reports(r, descriptor_error(*self)),
    {
        let c = self.validate_common();
        if c.is_err() {
            return c;
        }
        match self.kind {
            Kind::BaseType => self.validate_base_type(),
            Kind::Lambda => self.validate_lambda(),
            Kind::Reducer => self.validate_reducer(),
            Kind::Transform => self.validate_transform(),
            Kind::Adapter => self.validate_adapter(),
            Kind::ValidationUnit => self.validate_validation(),
            Kind::AnalysisUnit => self.validate_analysis(),
            Kind::MetaRule => self.validate_meta(),
            Kind::Engine => self.validate_engine(),
            Kind::Pipeline => self.validate_pipeline(),
            Kind::Runtime => self.validate_runtime(),
            Kind::TraceArtifact => self.validate_trace(),
            Kind::PolicyArtifact => self.validate_policy(),
            Kind::ActionExecutor => self.validate_action_executor(),
            Kind::BoundaryOp => self.validate_boundary_op(),
            Kind::CoboundaryOp => self.validate_coboundary_op(),
            Kind::AlgebraLaw => self.validate_algebra(),
            _ => Ok(()),
        }
    }

    fn validate_common(&self) -> (r: Result<(), String>)
        ensures reports(r, common_error(*self)),
    {
        if is_blank(self.id.as_str()) {
            return fail("contract id must not be empty");
        }
        if is_blank(self.name.as_str()) {
            return fail("contract name must not be empty");
        }
        match &self.constitution {
            Some(constitution) => match constitution.validate() {
                Ok(()) => Ok(()),
                Err(e) => Err(cat("constitution error: ", e.as_str())),
            },
            None => Ok(()),
        }
    }

    fn validate_lambda(&self) -> (r: Result<(), String>)
        ensures reports(r, lambda_error(*self)),
    {
        let laws = match &self.laws {
            Some(l) => l,
            None => { return fail("lambda requires laws"); }
        };
        if !matches!(laws.phi, LawPresence::Required(PhiLawDecl::NonIncreasing)) {
            return fail("lambda must have phi=NonIncreasing");
        }
        if !matches!(laws.structure, LawPresence::Required(StructureLawDecl::Preserving)) {
            return fail("lambda must have structure=Preserving");
        }
        if !matches!(laws.effect, LawPresence::Required(EffectLawDecl::Pure)) {
            return fail("lambda must have effect=Pure");
        }
        if self.domain_type.is_none() || self.codomain_type.is_none() {
            return fail("lambda requires domain_type and codomain_type");
        }
        if !is_true(self.constraints.search_forbidden) {
            return fail("lambda must forbid search");
        }
        if !is_true(self.constraints.hidden_state_forbidden) {
            return fail("lambda must forbid hidden state");
        }
        Ok(())
    }

    fn validate_reducer(&self) -> (r: Result<(), String>)
        ensures reports(r, reducer_error(*self)),
    {
        let laws = match &self.laws {
            Some(l) => l,
            None => { return fail("reducer requires laws"); }
        };
        if !matches!(laws.phi, LawPresence::Required(PhiLawDecl::Reducing)) {
            return fail("reducer must have phi=Reducing");
        }
        if !matches!(laws.structure, LawPresence::Required(StructureLawDecl::Reductive)) {
            return fail("reducer must have structure=Reductive");
        }
        if !matches!(laws.effect, LawPresence::Required(EffectLawDecl::Pure)) {
            return fail("reducer must have effect=Pure");
        }
        if self.domain_type.is_none() || self.codomain_type.is_none() {
            return fail("reducer requires domain_type and codomain_type");
        }
        Ok(())
    }

    fn validate_transform(&self) -> (r: Result<(), String>)
        ensures reports(r, transform_error(*self)),
    {
        let laws = match &self.laws {
            Some(l) => l,
            None => { return fail("transform requires laws"); }
        };
        if !matches!(laws.phi, LawPresence::Required(PhiLawDecl::Unrestricted)) {
            return fail("transform must have phi=Unrestricted");
        }
        if !matches!(laws.structure, LawPresence::Required(StructureLawDecl::Transforming)) {
            return fail("transform must have structure=Transforming");
        }
        if !matches!(laws.effect, LawPresence::Required(EffectLawDecl::Pure)) {
            return fail("transform must have effect=Pure");
        }
        if self.domain_type.is_none() || self.codomain_type.is_none() {
            return fail("transform requires domain_type and codomain_type");
        }
        Ok(())
    }

    fn validate_adapter(&self) -> (r: Result<(), String>)
        ensures reports(r, adapter_error(*self)),
    {
        if self.domain_type.is_none() || self.codomain_type.is_none() {
            return fail("adapter requires source and target types");
        }
        if self.laws.is_some() {
            return fail("adapter must not declare operator laws");
        }
        if self.subject_type.is_some() {
            return fail("adapter must not declare subject_type");
        }
        if self.runtime_state_type.is_some() {
            return fail("adapter must not declare runtime_state_type");
        }
        if self.governed_layer.is_some() || self.decision_scope.is_some() {
            return fail("adapter must not declare governed_layer or decision_scope");
        }
        Ok(())
    }

    fn validate_validation(&self) -> (r: Result<(), String>)
        ensures reports(r, validation_error(*self)),
    {
        if self.subject_type.is_none() {
            return fail("validation unit requires subject_type");
        }
        if !is_true(self.constraints.read_only) {
            return fail("validation must be read-only");
        }
        if !is_true(self.constraints.mutation_forbidden) {
            return fail("validation must forbid mutation");
        }
        if !is_true(self.constraints.typed_output_required) {
            return fail("validation must require typed output");
        }
        Ok(())
    }

    fn validate_analysis(&self) -> (r: Result<(), String>)
        ensures reports(r, analysis_error(*self)),
    {
        if self.subject_type.is_none() {
            return fail("analysis unit requires subject_type");
        }
        if !is_true(self.constraints.read_only) {
            return fail("analysis must be read-only");
        }
        if !is_true(self.constraints.operator_execution_forbidden) {
            return fail("analysis must not execute operators");
        }
        Ok(())
    }

    fn validate_meta(&self) -> (r: Result<(), String>)
        ensures reports(r, meta_error(*self)),
    {
        if self.subject_type.is_none() {
            return fail("meta rule requires subject_type");
        }
        if !is_true(self.constraints.operator_execution_forbidden) {
            return fail("meta must not execute operators");
        }
        if !is_true(self.constraints.runtime_orchestration_forbidden) {
            return fail("meta must not orchestrate runtime");
        }
        Ok(())
    }

    fn validate_engine(&self) -> (r: Result<(), String>)
        ensures reports(r, engine_error(*self)),
    {
        let laws = match &self.laws {
            Some(l) => l,
            None => { return fail("engine requires laws"); }
        };
        if !matches!(laws.effect, LawPresence::Required(EffectLawDecl::Stateful)) {
            return fail("engine must have effect=Stateful");
        }
        if self.runtime_state_type.is_none() {
            return fail("engine requires runtime_state_type");
        }
        if is_true(self.constraints.iteration_forbidden) {
            return fail("engine must allow iteration");
        }
        Ok(())
    }

    fn validate_pipeline(&self) -> (r: Result<(), String>)
        ensures reports(r, pipeline_error(*self)),
    {
        if self.runtime_state_type.is_none() {
            return fail("pipeline requires pipeline_state");
        }
        if !is_true(self.constraints.operator_execution_forbidden) {
            return fail("pipeline must not execute operators directly");
        }
        Ok(())
    }

    fn validate_runtime(&self) -> (r: Result<(), String>)
        ensures reports(r, runtime_error(*self)),
    {
        if self.runtime_state_type.is_none() {
            return fail("runtime requires runtime_state_type");
        }
        if !is_true(self.constraints.operator_execution_forbidden) {
            return fail("runtime must not execute operators directly");
        }
        Ok(())
    }

    fn validate_trace(&self) -> (r: Result<(), String>)
        ensures reports(r, trace_error(*self)),
    {
        if !is_true(self.constraints.immutable_after_emit) {
            return fail("trace must be immutable after emit");
        }
        if !is_true(self.constraints.mutation_forbidden) {
            return fail("trace must forbid mutation");
        }
        Ok(())
    }

    fn validate_policy(&self) -> (r: Result<(), String>)
        ensures reports(r, policy_error(*self)),
    {
        if self.governed_layer.is_none() {
            return fail("policy must declare governed_layer");
        }
        if self.decision_scope.is_none() {
            return fail("policy must declare decision_scope");
        }
        if !is_true(self.constraints.policy_version_required) {
            return fail("policy must declare versioning");
        }
        Ok(())
    }

    fn is_kernel_class(&self) -> (r: bool)
        ensures r == (self.operator_class == Some(OperatorClass::Kernel)),
    {
        match &self.operator_class {
            Some(OperatorClass::Kernel) => true,
            _ => false,
        }
    }

    fn validate_kernel_op(&self, what: &str) -> (r: Result<(), String>)
        ensures reports(r, kernel_op_error(*self, what@)),
    {
        if !self.is_kernel_class() {
            return Err(cat(what, " op must be kernel class"));
        }
        if self.signature.is_none() {
            return Err(cat(what, " op must define a signature"));
        }
        if self.requirements.is_none() {
            return Err(cat(what, " op must define requires block with licenses"));
        }
        Ok(())
    }

    fn validate_boundary_op(&self) -> (r: Result<(), String>)
        ensures reports(r, kernel_op_error(*self, "boundary"@)),
    {
        self.validate_kernel_op("boundary")
    }

    fn validate_coboundary_op(&self) -> (r: Result<(), String>)
        ensures reports(r, kernel_op_error(*self, "coboundary"@)),
    {
        self.validate_kernel_op("coboundary")
    }

    fn validate_action_executor(&self) -> (r: Result<(), String>)
        ensures reports(r, action_executor_error(*self)),
    {
        let laws = match &self.laws {
            Some(l) => l,
            None => { return fail("action executor requires laws"); }
        };
        if !matches!(laws.effect, LawPresence::Required(EffectLawDecl::Stateful)) {
            return fail("action executor must have effect=Stateful");
        }
        if self.subject_type.is_none() {
            return fail("action executor requires subject_type");
        }
        if !is_true(self.constraints.typed_output_required) {
            return fail("action executor must require typed_output_required");
        }
        Ok(())
    }

    fn validate_base_type(&self) -> (r: Result<(), String>)
        ensures reports(r, base_type_error(*self)),
    {
        if self.domain_type.is_some() || self.codomain_type.is_some() {
            return fail("base type must not declare domain/codomain");
        }
        if self.laws.is_some() {
            return fail("base type must not declare laws");
        }
        if self.subject_type.is_some() {
            return fail("base type must not declare subject_type");
        }
        if self.runtime_state_type.is_some() {
            return fail("base type must not declare runtime_state_type");
        }
        if self.governed_layer.is_some() || self.decision_scope.is_some() {
            return fail("base type must not declare governed_layer or decision_scope");
        }
        Ok(())
    }

    fn validate_algebra(&self) -> (r: Result<(), String>)
        ensures reports(r, algebra_error(*self)),
    {
        // Algebra contracts must not use the operator-layer law block,
        // hold runtime state, or use the typed governed layer.
        if self.laws.is_some() {
            return fail("algebra law must not use LawBlock (operator layer)");
        }
        if self.runtime_state_type.is_some() {
            return fail("algebra law must not declare runtime_state_type");
        }
        if self.governed_layer.is_some() {
            return fail("algebra law must use governed_algebra_layer, not governed_layer");
        }
        Ok(())
    }
}

/// The first error of a registry's first `k` descriptors: each descriptor
/// is validated in turn, and an id seen before is a duplicate.
pub open spec fn registry_error(cs: Seq<ContractDescriptor>, k: int) -> Option<Seq<char>>
    decreases k,
{
    if k <= 0 {
        None
    } else {
        match registry_error(cs, k - 1) {
            Some(e) => Some(e),
            None => match descriptor_error(cs[k - 1]) {
                Some(e) => Some(e),
                None => if exists|j: int| 0 <= j < k - 1 && (#[trigger] cs[j]).id@ == cs[k - 1].id@ {
                    Some("duplicate contract id: "@ + cs[k - 1].id@)
                } else {
                    None
                },
            },
        }
    }
}

/// Validates every descriptor in order and rejects a repeated id.
pub fn validate_registry(contracts: &[ContractDescriptor]) -> (r: Result<(), String>)
    ensures
        reports(r, registry_error(contracts@, contracts@.len() as int)),
        r is Ok <==> sound_prefix(contracts@, contracts@.len() as int),
{
    proof { registry_accepts_exactly_sound(contracts@); }
    let mut i: usize = 0;
    while i < contracts.len()
        invariant
            i <= contracts@.len(),
            registry_error(contracts@, i as int) is None,
            registry_error(contracts@, contracts@.len() as int) is None
                <==> sound_prefix(contracts@, contracts@.len() as int),
        decreases contracts.len() - i,
    {
        let c = &contracts[i];
        let v = c.validate();
        if v.is_err() {
            proof { lemma_registry_error_stays(contracts@, i as int + 1, contracts@.len() as int); }
            return v;
        }
        let mut j: usize = 0;
        while j < i
            invariant
                j <= i, i < contracts@.len(),
                *c == contracts@[i as int],
                registry_error(contracts@, i as int) is None,
                registry_error(contracts@, contracts@.len() as int) is None
                    <==> sound_prefix(contracts@, contracts@.len() as int),
                descriptor_error(contracts@[i as int]) is None,
                forall|q: int| 0 <= q < j ==> contracts@[q].id@ != contracts@[i as int].id@,
            decreases i - j,
        {
            if str_eq(contracts[j].id.as_str(), c.id.as_str()) {
                proof {
                    assert(contracts@[j as int].id@ == contracts@[i as int].id@);
                    assert(exists|q: int| 0 <= q < i && (#[trigger] contracts@[q]).id@ == contracts@[i as int].id@);
                    assert(registry_error(contracts@, i as int + 1) == Some("duplicate contract id: "@ + contracts@[i as int].id@));
                    lemma_registry_error_stays(contracts@, i as int + 1, contracts@.len() as int);
                }
                return Err(cat("duplicate contract id: ", c.id.as_str()));
            }
            j += 1;
        }
        i += 1;
    }
    Ok(())
}

proof fn lemma_registry_error_stays(cs: Seq<ContractDescriptor>, k: int, m: int)
    requires 0 <= k <= m, registry_error(cs, k) is Some,
    ensures registry_error(cs, m) == registry_error(cs, k),
    decreases m - k,
{
    if k < m {
        lemma_registry_error_stays(cs, k, m - 1);
    }
}

/// The first `k` descriptors are each valid, under ids no two of them share.
pub open spec fn sound_prefix(cs: Seq<ContractDescriptor>, k: int) -> bool {
    &&& forall|i: int| 0 <= i < k ==> descriptor_error(#[trigger] cs[i]) is None
    &&& forall|i: int, j: int| 0 <= i < j < k ==> (#[trigger] cs[i]).id@ != (#[trigger] cs[j]).id@
}

proof fn lemma_registry_sound_prefix(cs: Seq<ContractDescriptor>, k: int)
    requires 0 <= k <= cs.len(),
    ensures registry_error(cs, k) is None <==> sound_prefix(cs, k),
    decreases k,
{
    if k > 0 {
        lemma_registry_sound_prefix(cs, k - 1);
        if sound_prefix(cs, k) {
            assert(sound_prefix(cs, k - 1));
            assert(descriptor_error(cs[k - 1]) is None);
            assert(!exists|j: int| 0 <= j < k - 1 && (#[trigger] cs[j]).id@ == cs[k - 1].id@);
        }
        if registry_error(cs, k) is None {
            assert(!exists|j: int| 0 <= j < k - 1 && (#[trigger] cs[j]).id@ == cs[k - 1].id@);
            assert forall|i: int, j: int| 0 <= i < j < k implies (#[trigger] cs[i]).id@ != (#[trigger] cs[j]).id@ by {
                if j == k - 1 {
                    if cs[i].id@ == cs[j].id@ {
                        assert(0 <= i < k - 1 && cs[i].id@ == cs[k - 1].id@);
                    }
                }
            }
        }
    }
}

/// A registry validates exactly when every descriptor in it validates and
/// no two share an id.
pub proof fn registry_accepts_exactly_sound(cs: Seq<ContractDescriptor>)
    ensures
        registry_error(cs, cs.len() as int) is None <==> sound_prefix(cs, cs.len() as int),
{
    lemma_registry_sound_prefix(cs, cs.len() as int);
}

/// A registry's error, if any, is that of its first bad contract: every
/// contract before it validates under a distinct id, and it either breaks a
/// descriptor rule, whose message is the error, or repeats an earlier id.
pub proof fn registry_reports_first_bad_contract(cs: Seq<ContractDescriptor>, n: int)
    requires
        0 <= n <= cs.len(),
    ensures
        registry_error(cs, n) matches Some(e) ==> exists|i: int| #![trigger sound_prefix(cs, i)]
            0 <= i < n && sound_prefix(cs, i) && (descriptor_error(cs[i]) == Some(e)
                || (descriptor_error(cs[i]) is None && e == "duplicate contract id: "@ + cs[i].id@
                    && exists|j: int| 0 <= j < i && (#[trigger] cs[j]).id@ == cs[i].id@)),
    decreases n,
{
    if n > 0 {
        registry_reports_first_bad_contract(cs, n - 1);
        if registry_error(cs, n - 1) is None {
            lemma_registry_sound_prefix(cs, n - 1);
            assert(sound_prefix(cs, n - 1));
        }
    }
}

} // verus!
