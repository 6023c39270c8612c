//! Binding of implementations to generated contract images, and the audit
//! that holds a binding against its sealed descriptor.
use vstd::prelude::*;
use crate::law::law_enforcement::kinds::{BaseType, LambdaKind, MetaKind, ReducerKind, TransformKind};
use crate::law::law_enforcement::schema::{EffectLawDecl, Kind, PhiLawDecl, StructureLawDecl};
use crate::law::law_enforcement::sealed::Sealed;
use crate::law::law_enforcement::traits::{LambdaOp, MetaRule, ReducerOp, TransformOp};
use crate::text::{hex_u64_padded, str_eq, u64_hex_padded};

verus! {

#[verifier::external_type_specification]
#[verifier::external_body]
pub struct ExTypeId(core::any::TypeId);

/// `core::any::TypeId::of::<T>()`. Nothing is stated of the identifier
/// itself: which value a type gets is up to the compiler.
#[verifier::external_body]
fn type_id_of<T: 'static>() -> core::any::TypeId {
    core::any::TypeId::of::<T>()
}

/// `==` on two `core::any::TypeId`s, which compares the identifiers'
/// whole contents: it holds exactly when they are the same value.
#[verifier::external_body]
fn type_id_eq(a: &core::any::TypeId, b: &core::any::TypeId) -> (r: bool)
    ensures r == (*a == *b),
{
    *a == *b
}

/// Whether a law is bound (with its declaration) or forbidden.
#[derive(Debug, Clone, PartialEq, Eq, Structural)]
pub enum LawBinding<T> {
    Required(T),
    Forbidden,
}

/// The type a contract slot is bound to, by identifier and name, or
/// `Forbidden` for a slot that must stay empty (the unit type).
#[derive(Debug, Clone, Copy)]
pub enum TypeBinding {
    Concrete(core::any::TypeId, &'static str),
    Forbidden,
}

/// Two bindings are equal when both are forbidden, or both are concrete
/// with the same identifier and the same name.
pub open spec fn same_binding(a: TypeBinding, b: TypeBinding) -> bool {
    match (a, b) {
        (TypeBinding::Concrete(i, n), TypeBinding::Concrete(j, m)) => i == j && n@ == m@,
        (TypeBinding::Forbidden, TypeBinding::Forbidden) => true,
        _ => false,
    }
}

impl PartialEq for TypeBinding {
    fn eq(&self, other: &Self) -> (r: bool) {
        match (self, other) {
            (TypeBinding::Concrete(i, n), TypeBinding::Concrete(j, m)) => type_id_eq(i, j) && str_eq(n, m),
            (TypeBinding::Forbidden, TypeBinding::Forbidden) => true,
            _ => false,
        }
    }
}

impl vstd::std_specs::cmp::PartialEqSpecImpl for TypeBinding {
    open spec fn obeys_eq_spec() -> bool {
        true
    }

    open spec fn eq_spec(&self, other: &Self) -> bool {
        same_binding(*self, *other)
    }
}

impl Eq for TypeBinding {}

impl TypeBinding {
    /// The binding of type `T` under `name`.
    pub fn of<T: 'static>(name: &'static str) -> (r: Self)
        ensures r matches TypeBinding::Concrete(_, n) && n == name,
    {
        TypeBinding::Concrete(type_id_of::<T>(), name)
    }

    /// The declared name of a concrete binding.
    pub fn name(&self) -> (r: Option<&'static str>)
        ensures
            match *self {
                TypeBinding::Concrete(_, n) => r == Some(n),
                TypeBinding::Forbidden => r is None,
            },
    {
        match self {
            TypeBinding::Concrete(_, name) => Some(*name),
            TypeBinding::Forbidden => None,
        }
    }
}

/// What a sealed descriptor declares, its identifier by its characters.
pub struct DescriptorView {
    pub id: Seq<char>,
    pub kind: Kind,
    pub phi_law: LawBinding<PhiLawDecl>,
    pub structure_law: LawBinding<StructureLawDecl>,
    pub effect_law: LawBinding<EffectLawDecl>,
    pub domain_type: TypeBinding,
    pub codomain_type: TypeBinding,
    pub subject_type: TypeBinding,
    pub runtime_state_type: TypeBinding,
    pub schema_hash: u64,
}

/// The descriptor a generated contract image carries.
#[derive(Debug)]
pub struct SealedContractDescriptor {
    pub(crate) id: &'static str,
    pub(crate) kind: Kind,
    pub(crate) phi_law: LawBinding<PhiLawDecl>,
    pub(crate) structure_law: LawBinding<StructureLawDecl>,
    pub(crate) effect_law: LawBinding<EffectLawDecl>,
    pub(crate) domain_type: TypeBinding,
    pub(crate) codomain_type: TypeBinding,
    pub(crate) subject_type: TypeBinding,
    pub(crate) runtime_state_type: TypeBinding,
    /// Stable hash of the canonical schema contents, used to detect drift
    /// between generated code and its source.
    pub(crate) schema_hash: u64,
}

impl View for SealedContractDescriptor {
    type V = DescriptorView;

    closed spec fn view(&self) -> DescriptorView {
        DescriptorView {
            id: self.id@,
            kind: self.kind,
            phi_law: self.phi_law,
            structure_law: self.structure_law,
            effect_law: self.effect_law,
            domain_type: self.domain_type,
            codomain_type: self.codomain_type,
            subject_type: self.subject_type,
            runtime_state_type: self.runtime_state_type,
            schema_hash: self.schema_hash,
        }
    }
}

impl SealedContractDescriptor {
    /// A descriptor with the given declarations, as the generator writes it.
    pub fn new(
        id: &'static str,
        kind: Kind,
        phi_law: LawBinding<PhiLawDecl>,
        structure_law: LawBinding<StructureLawDecl>,
        effect_law: LawBinding<EffectLawDecl>,
        domain_type: TypeBinding,
        codomain_type: TypeBinding,
        subject_type: TypeBinding,
        runtime_state_type: TypeBinding,
        schema_hash: u64,
    ) -> (r: Self)
        ensures
            r@ == (DescriptorView {
                id: id@,
                kind,
                phi_law,
                structure_law,
                effect_law,
                domain_type,
                codomain_type,
                subject_type,
                runtime_state_type,
                schema_hash,
            }),
    {
        SealedContractDescriptor {
            id,
            kind,
            phi_law,
            structure_law,
            effect_law,
            domain_type,
            codomain_type,
            subject_type,
            runtime_state_type,
            schema_hash,
        }
    }

    pub fn id(&self) -> (r: &'static str)
        ensures r@ == self@.id,
    {
        self.id
    }

    pub fn kind(&self) -> (r: &Kind)
        ensures *r == self@.kind,
    {
        &self.kind
    }

    pub fn phi_law(&self) -> (r: &LawBinding<PhiLawDecl>)
        ensures *r == self@.phi_law,
    {
        &self.phi_law
    }

    pub fn structure_law(&self) -> (r: &LawBinding<StructureLawDecl>)
        ensures *r == self@.structure_law,
    {
        &self.structure_law
    }

    pub fn effect_law(&self) -> (r: &LawBinding<EffectLawDecl>)
        ensures *r == self@.effect_law,
    {
        &self.effect_law
    }

    pub fn domain_type(&self) -> (r: TypeBinding)
        ensures r == self@.domain_type,
    {
        self.domain_type
    }

    pub fn codomain_type(&self) -> (r: TypeBinding)
        ensures r == self@.codomain_type,
    {
        self.codomain_type
    }

    pub fn subject_type(&self) -> (r: TypeBinding)
        ensures r == self@.subject_type,
    {
        self.subject_type
    }

    pub fn runtime_state_type(&self) -> (r: TypeBinding)
        ensures r == self@.runtime_state_type,
    {
        self.runtime_state_type
    }

    pub fn schema_hash(&self) -> (r: u64)
        ensures r == self@.schema_hash,
    {
        self.schema_hash
    }
}

/// A generated contract image. Only generated code implements it: the
/// supertrait `Sealed` is reserved for it.
pub trait ContractImage: Sealed {
    const DESCRIPTOR: &'static SealedContractDescriptor;
}

/// The public contract surface: an implementor binds itself to a generated
/// image, and its associated types are audited against the image's slots.
pub trait BoundContract: ContractImage {
    type Domain: 'static;
    type Codomain: 'static;
    type Subject: 'static;
    type RuntimeState: 'static;
}

/// Marks that an implementation type implements contract `C`.
pub trait ImplementsContract<C: BoundContract>: Sized {
    /// The descriptor of the contract's image: by default, `C`'s own.
    fn contract_descriptor() -> (r: &'static SealedContractDescriptor)
        default_ensures
            r == C::DESCRIPTOR,
    {
        C::DESCRIPTOR
    }
}


/// How an audit found a binding to disagree with its descriptor.
#[derive(Debug)]
pub enum ContractAuditError {
    KindMismatch { contract_id: &'static str, expected: String, actual: String, schema_hash: u64 },
    LawMismatch {
        contract_id: &'static str,
        field: &'static str,
        expected: String,
        actual: String,
        schema_hash: u64,
    },
    TypeMismatch { contract_id: &'static str, field: &'static str, schema_hash: u64 },
}

/// The report line of an audit error, the hash as `0x` and sixteen digits.
pub open spec fn audit_message(e: ContractAuditError) -> Seq<char> {
    match e {
        ContractAuditError::KindMismatch { contract_id, expected, actual, schema_hash } =>
            "CONTRACT VIOLATION ["@ + contract_id@ + "] kind mismatch: expected="@ + expected@
                + ", actual="@ + actual@ + ", schema_hash="@ + hex_u64_padded(schema_hash),
        ContractAuditError::LawMismatch { contract_id, field, expected, actual, schema_hash } =>
            "CONTRACT VIOLATION ["@ + contract_id@ + "] "@ + field@ + " mismatch: expected="@
                + expected@ + ", actual="@ + actual@ + ", schema_hash="@ + hex_u64_padded(schema_hash),
        ContractAuditError::TypeMismatch { contract_id, field, schema_hash } =>
            "CONTRACT VIOLATION ["@ + contract_id@ + "] "@ + field@
                + " type identity mismatch, schema_hash="@ + hex_u64_padded(schema_hash),
    }
}

impl ContractAuditError {
    /// The error's report line.
    pub fn message(&self) -> (r: String)
        ensures r@ == audit_message(*self),
    {
        match self {
            ContractAuditError::KindMismatch { contract_id, expected, actual, schema_hash } => {
                let s = String::from_str("CONTRACT VIOLATION [").concat(contract_id);
                let s = s.concat("] kind mismatch: expected=").concat(expected.as_str());
                let s = s.concat(", actual=").concat(actual.as_str());
                let h = u64_hex_padded(*schema_hash);
                s.concat(", schema_hash=").concat(h.as_str())
            },
            ContractAuditError::LawMismatch { contract_id, field, expected, actual, schema_hash } => {
                let s = String::from_str("CONTRACT VIOLATION [").concat(contract_id);
                let s = s.concat("] ").concat(field);
                let s = s.concat(" mismatch: expected=").concat(expected.as_str());
                let s = s.concat(", actual=").concat(actual.as_str());
                let h = u64_hex_padded(*schema_hash);
                s.concat(", schema_hash=").concat(h.as_str())
            },
            ContractAuditError::TypeMismatch { contract_id, field, schema_hash } => {
                let s = String::from_str("CONTRACT VIOLATION [").concat(contract_id);
                let s = s.concat("] ").concat(field);
                let h = u64_hex_padded(*schema_hash);
                s.concat(" type identity mismatch, schema_hash=").concat(h.as_str())
            },
        }
    }
}

/// The name of a kind as it is written in schemas.
pub open spec fn kind_text(k: Kind) -> Seq<char> {
    match k {
        Kind::OperatingSystemDoctrine => "OperatingSystemDoctrine"@,
        Kind::ContractConstitution => "ContractConstitution"@,
        Kind::GlobalTaxonomy => "GlobalTaxonomy"@,
        Kind::BaseType => "BaseType"@,
        Kind::Lambda => "Lambda"@,
        Kind::Reducer => "Reducer"@,
        Kind::Transform => "Transform"@,
        Kind::Adapter => "Adapter"@,
        Kind::AlgebraLaw => "AlgebraLaw"@,
        Kind::ValidationUnit => "ValidationUnit"@,
        Kind::AnalysisUnit => "AnalysisUnit"@,
        Kind::MetaRule => "MetaRule"@,
        Kind::Engine => "Engine"@,
        Kind::Pipeline => "Pipeline"@,
        Kind::Runtime => "Runtime"@,
        Kind::TraceArtifact => "TraceArtifact"@,
        Kind::PolicyArtifact => "PolicyArtifact"@,
        Kind::ActionExecutor => "ActionExecutor"@,
        Kind::BoundaryOp => "BoundaryOp"@,
        Kind::CoboundaryOp => "CoboundaryOp"@,
        Kind::EvaluatorUnit => "EvaluatorUnit"@,
        Kind::SearchUnit => "SearchUnit"@,
        Kind::SolverUnit => "SolverUnit"@,
        Kind::DiagnosticUnit => "DiagnosticUnit"@,
        Kind::ObservableUnit => "ObservableUnit"@,
        Kind::CertificateArtifact => "CertificateArtifact"@,
        Kind::HealthUnit => "HealthUnit"@,
        Kind::MeasurementUnit => "MeasurementUnit"@,
        Kind::WitnessArtifact => "WitnessArtifact"@,
        Kind::ObstructionUnit => "ObstructionUnit"@,
        Kind::LiftUnit => "LiftUnit"@,
        Kind::ReplayArtifact => "ReplayArtifact"@,
        Kind::KernelArtifact => "KernelArtifact"@,
        Kind::ForgetfulOp => "ForgetfulOp"@,
        Kind::GaugeOp => "GaugeOp"@,
        Kind::TensorOp => "TensorOp"@,
    }
}

fn kind_name(k: Kind) -> (r: &'static str)
    ensures r@ == kind_text(k),
{
    match k {
        Kind::OperatingSystemDoctrine => "OperatingSystemDoctrine",
        Kind::ContractConstitution => "ContractConstitution",
        Kind::GlobalTaxonomy => "GlobalTaxonomy",
        Kind::BaseType => "BaseType",
        Kind::Lambda => "Lambda",
        Kind::Reducer => "Reducer",
        Kind::Transform => "Transform",
        Kind::Adapter => "Adapter",
        Kind::AlgebraLaw => "AlgebraLaw",
        Kind::ValidationUnit => "ValidationUnit",
        Kind::AnalysisUnit => "AnalysisUnit",
        Kind::MetaRule => "MetaRule",
        Kind::Engine => "Engine",
        Kind::Pipeline => "Pipeline",
        Kind::Runtime => "Runtime",
        Kind::TraceArtifact => "TraceArtifact",
        Kind::PolicyArtifact => "PolicyArtifact",
        Kind::ActionExecutor => "ActionExecutor",
        Kind::BoundaryOp => "BoundaryOp",
        Kind::CoboundaryOp => "CoboundaryOp",
        Kind::EvaluatorUnit => "EvaluatorUnit",
        Kind::SearchUnit => "SearchUnit",
        Kind::SolverUnit => "SolverUnit",
        Kind::DiagnosticUnit => "DiagnosticUnit",
        Kind::ObservableUnit => "ObservableUnit",
        Kind::CertificateArtifact => "CertificateArtifact",
        Kind::HealthUnit => "HealthUnit",
        Kind::MeasurementUnit => "MeasurementUnit",
        Kind::WitnessArtifact => "WitnessArtifact",
        Kind::ObstructionUnit => "ObstructionUnit",
        Kind::LiftUnit => "LiftUnit",
        Kind::ReplayArtifact => "ReplayArtifact",
        Kind::KernelArtifact => "KernelArtifact",
        Kind::ForgetfulOp => "ForgetfulOp",
        Kind::GaugeOp => "GaugeOp",
        Kind::TensorOp => "TensorOp",
    }
}

/// A law declaration that can be compared and named in an audit report.
pub trait LawDeclText: Sized {
    spec fn text(&self) -> Seq<char>;

    fn decl_name(&self) -> (r: &'static str)
        ensures r@ == self.text();

    fn same(&self, other: &Self) -> (r: bool)
        ensures r == (*self == *other);
}

impl LawDeclText for PhiLawDecl {
    open spec fn text(&self) -> Seq<char> {
        match *self {
            PhiLawDecl::NonIncreasing => "NonIncreasing"@,
            PhiLawDecl::Reducing => "Reducing"@,
            PhiLawDecl::Unrestricted => "Unrestricted"@,
        }
    }

    fn decl_name(&self) -> (r: &'static str) {
        match *self {
            PhiLawDecl::NonIncreasing => "NonIncreasing",
            PhiLawDecl::Reducing => "Reducing",
            PhiLawDecl::Unrestricted => "Unrestricted",
        }
    }

    fn same(&self, other: &Self) -> (r: bool) {
        *self == *other
    }
}

impl LawDeclText for StructureLawDecl {
    open spec fn text(&self) -> Seq<char> {
        match *self {
            StructureLawDecl::Preserving => "Preserving"@,
            StructureLawDecl::Reductive => "Reductive"@,
            StructureLawDecl::Transforming => "Transforming"@,
        }
    }

    fn decl_name(&self) -> (r: &'static str) {
        match *self {
            StructureLawDecl::Preserving => "Preserving",
            StructureLawDecl::Reductive => "Reductive",
            StructureLawDecl::Transforming => "Transforming",
        }
    }

    fn same(&self, other: &Self) -> (r: bool) {
        *self == *other
    }
}

impl LawDeclText for EffectLawDecl {
    open spec fn text(&self) -> Seq<char> {
        match *self {
            EffectLawDecl::Pure => "Pure"@,
            EffectLawDecl::ReadOnly => "ReadOnly"@,
            EffectLawDecl::Stateful => "Stateful"@,
        }
    }

    fn decl_name(&self) -> (r: &'static str) {
        match *self {
            EffectLawDecl::Pure => "Pure",
            EffectLawDecl::ReadOnly => "ReadOnly",
            EffectLawDecl::Stateful => "Stateful",
        }
    }

    fn same(&self, other: &Self) -> (r: bool) {
        *self == *other
    }
}

/// A law binding as written in reports: `Required(<law>)` or `Forbidden`.
pub open spec fn law_binding_text<T: LawDeclText>(b: LawBinding<T>) -> Seq<char> {
    match b {
        LawBinding::Required(d) => "Required("@ + d.text() + ")"@,
        LawBinding::Forbidden => "Forbidden"@,
    }
}

fn law_binding_string<T: LawDeclText>(b: &LawBinding<T>) -> (r: String)
    ensures r@ == law_binding_text(*b),
{
    match b {
        LawBinding::Required(d) => String::from_str("Required(").concat(d.decl_name()).concat(")"),
        LawBinding::Forbidden => String::from_str("Forbidden"),
    }
}

fn same_law<T: LawDeclText>(a: &LawBinding<T>, b: &LawBinding<T>) -> (r: bool)
    ensures r == (*a == *b),
{
    match (a, b) {
        (LawBinding::Required(x), LawBinding::Required(y)) => x.same(y),
        (LawBinding::Forbidden, LawBinding::Forbidden) => true,
        _ => false,
    }
}

/// `Ok` when a declared law binding is the expected one, else the mismatch
/// with both bindings in report form.
#[allow(dead_code)]
fn ensure_law_eq<T: LawDeclText>(
    contract_id: &'static str,
    field: &'static str,
    expected: &LawBinding<T>,
    actual: &LawBinding<T>,
    schema_hash: u64,
) -> (r: Result<(), ContractAuditError>)
    ensures
        *expected == *actual ==> r is Ok,
        *expected != *actual ==> (r matches Err(ContractAuditError::LawMismatch {
            contract_id: c, field: f, expected: e, actual: a, schema_hash: h })
            && c == contract_id && f == field && e@ == law_binding_text(*expected)
            && a@ == law_binding_text(*actual) && h == schema_hash),
{
    if !same_law(expected, actual) {
        Err(ContractAuditError::LawMismatch {
            contract_id,
            field,
            expected: law_binding_string(expected),
            actual: law_binding_string(actual),
            schema_hash,
        })
    } else {
        Ok(())
    }
}

/// `Ok` when the kinds agree, else the mismatch with both kinds' names.
pub fn ensure_kind(expected: Kind, actual: Kind, id: &'static str, hash: u64) -> (r: Result<(), ContractAuditError>)
    ensures
        expected == actual ==> r is Ok,
        expected != actual ==> (r matches Err(ContractAuditError::KindMismatch {
            contract_id, expected: e, actual: a, schema_hash })
            && contract_id == id && e@ == kind_text(expected) && a@ == kind_text(actual)
            && schema_hash == hash),
{
    if expected != actual {
        return Err(ContractAuditError::KindMismatch {
            contract_id: id,
            expected: String::from_str(kind_name(expected)),
            actual: String::from_str(kind_name(actual)),
            schema_hash: hash,
        });
    }
    Ok(())
}

fn ensure_type_eq(
    contract_id: &'static str,
    field: &'static str,
    expected: TypeBinding,
    actual: TypeBinding,
    schema_hash: u64,
) -> (r: Result<(), ContractAuditError>)
    ensures
        same_binding(expected, actual) ==> r is Ok,
        !same_binding(expected, actual) ==> (r matches Err(ContractAuditError::TypeMismatch {
            contract_id: c, field: f, schema_hash: h }) && c == contract_id && f == field && h == schema_hash),
{
    if !(expected == actual) {
        Err(ContractAuditError::TypeMismatch { contract_id, field, schema_hash })
    } else {
        Ok(())
    }
}

/// The binding a slot's type gives: `Forbidden` for the unit type, else its
/// identifier under the name the slot declares (`unknown` for a forbidden
/// slot).
fn actual_binding(expected: TypeBinding, type_id: core::any::TypeId, unit_id: core::any::TypeId) -> (r: TypeBinding)
    ensures
        type_id == unit_id ==> r is Forbidden,
        type_id != unit_id ==> (r matches TypeBinding::Concrete(i, n) && i == type_id && match expected {
            TypeBinding::Concrete(_, m) => n == m,
            TypeBinding::Forbidden => n@ == "unknown"@,
        }),
{
    if type_id_eq(&type_id, &unit_id) {
        TypeBinding::Forbidden
    } else {
        let name = match expected.name() {
            Some(n) => n,
            None => "unknown",
        };
        TypeBinding::Concrete(type_id, name)
    }
}

/// Whether a slot's declared binding holds of the identifier of the type
/// bound to it: a forbidden slot takes the unit type, a concrete one its own
/// type, which is not the unit type.
pub open spec fn slot_holds(expected: TypeBinding, type_id: core::any::TypeId, unit_id: core::any::TypeId) -> bool {
    match expected {
        TypeBinding::Concrete(e, _) => type_id != unit_id && e == type_id,
        TypeBinding::Forbidden => type_id == unit_id,
    }
}

/// The first slot, in the order domain, codomain, subject, runtime state,
/// whose declared binding the given type identifiers break.
pub open spec fn first_broken_slot(
    d: DescriptorView,
    domain: core::any::TypeId,
    codomain: core::any::TypeId,
    subject: core::any::TypeId,
    runtime_state: core::any::TypeId,
    unit_id: core::any::TypeId,
) -> Option<Seq<char>> {
    if !slot_holds(d.domain_type, domain, unit_id) {
        Some("domain_type"@)
    } else if !slot_holds(d.codomain_type, codomain, unit_id) {
        Some("codomain_type"@)
    } else if !slot_holds(d.subject_type, subject, unit_id) {
        Some("subject_type"@)
    } else if !slot_holds(d.runtime_state_type, runtime_state, unit_id) {
        Some("runtime_state_type"@)
    } else {
        None
    }
}

/// An audit's result given the slot it found broken, if any: the descriptor
/// itself, or a type mismatch naming the slot under the descriptor's id and
/// hash.
pub open spec fn audit_reports<'a>(
    r: Result<&'a SealedContractDescriptor, ContractAuditError>,
    d: &'a SealedContractDescriptor,
    broken: Option<Seq<char>>,
) -> bool {
    match broken {
        None => r matches Ok(x) && x == d,
        Some(f) => r matches Err(ContractAuditError::TypeMismatch { contract_id, field, schema_hash })
            && contract_id@ == d@.id && field@ == f && schema_hash == d@.schema_hash,
    }
}

/// Audits a descriptor's four type slots against the identifiers of the
/// types bound to them, `unit_id` being that of the unit type.
pub fn audit_descriptor<'a>(
    d: &'a SealedContractDescriptor,
    domain: core::any::TypeId,
    codomain: core::any::TypeId,
    subject: core::any::TypeId,
    runtime_state: core::any::TypeId,
    unit_id: core::any::TypeId,
) -> (r: Result<&'a SealedContractDescriptor, ContractAuditError>)
    ensures audit_reports(r, d, first_broken_slot(d@, domain, codomain, subject, runtime_state, unit_id)),
{
    let a = ensure_type_eq(d.id, "domain_type", d.domain_type,
        actual_binding(d.domain_type, domain, unit_id), d.schema_hash);
    if let Err(e) = a {
        return Err(e);
    }
    let b = ensure_type_eq(d.id, "codomain_type", d.codomain_type,
        actual_binding(d.codomain_type, codomain, unit_id), d.schema_hash);
    if let Err(e) = b {
        return Err(e);
    }
    let c = ensure_type_eq(d.id, "subject_type", d.subject_type,
        actual_binding(d.subject_type, subject, unit_id), d.schema_hash);
    if let Err(e) = c {
        return Err(e);
    }
    let s = ensure_type_eq(d.id, "runtime_state_type", d.runtime_state_type,
        actual_binding(d.runtime_state_type, runtime_state, unit_id), d.schema_hash);
    if let Err(e) = s {
        return Err(e);
    }
    Ok(d)
}

/// What an audit of a contract's image can give, whichever identifiers the
/// compiler gave the slot types: the image's descriptor, or a type mismatch
/// on one of the four slots under the descriptor's id and hash.
pub open spec fn audit_outcome(
    r: Result<&'static SealedContractDescriptor, ContractAuditError>,
    d: &'static SealedContractDescriptor,
) -> bool {
    match r {
        Ok(x) => x == d,
        Err(e) => e matches ContractAuditError::TypeMismatch { contract_id, field, schema_hash }
            && contract_id@ == d@.id && schema_hash == d@.schema_hash
            && (field@ == "domain_type"@ || field@ == "codomain_type"@ || field@ == "subject_type"@
                || field@ == "runtime_state_type"@),
    }
}

/// Audits contract `T`'s image against its associated types.
pub fn audit_contract<T: BoundContract>() -> (r: Result<&'static SealedContractDescriptor, ContractAuditError>)
    ensures audit_outcome(r, T::DESCRIPTOR),
{
    let d = T::DESCRIPTOR;
    audit_descriptor(
        d,
        type_id_of::<T::Domain>(),
        type_id_of::<T::Codomain>(),
        type_id_of::<T::Subject>(),
        type_id_of::<T::RuntimeState>(),
        type_id_of::<()>(),
    )
}

/// Audits that implementation `I` binds correctly to contract `C`.
pub fn audit_implementation<I: ImplementsContract<C>, C: BoundContract>() -> (r: Result<
    &'static SealedContractDescriptor,
    ContractAuditError,
>)
    ensures audit_outcome(r, C::DESCRIPTOR),
{
    let _d = I::contract_descriptor();
    audit_contract::<C>()
}

/// Compile-time gate: `T` must be a lambda mapping the contract's domain to
/// its codomain.
pub fn require_lambda_shape<T, C>() where
    T: ImplementsContract<C> + LambdaKind + LambdaOp<C::Domain, C::Codomain>,
    C: BoundContract,
    C::Domain: BaseType,
    C::Codomain: BaseType,
{
}

/// Compile-time gate: `T` must be a transform on the contract's domain.
pub fn require_transform_shape<T, C>() where
    T: ImplementsContract<C> + TransformKind + TransformOp<C::Domain>,
    C: BoundContract,
    C::Domain: BaseType,
{
}

/// Compile-time gate: `T` must be a reducer on the contract's domain.
pub fn require_reducer_shape<T, C>() where
    T: ImplementsContract<C> + ReducerKind + ReducerOp<C::Domain>,
    C: BoundContract,
    C::Domain: BaseType,
{
}

/// Compile-time gate: `T` must be a meta rule observing the contract's
/// subject.
pub fn require_meta_shape<T, C>() where
    T: ImplementsContract<C> + MetaKind + MetaRule<C::Subject, Output = C::Codomain>,
    C: BoundContract,
{
}
} // verus!
