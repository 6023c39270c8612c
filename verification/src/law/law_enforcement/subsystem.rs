//! Provenance and authority of rendered reports.
use vstd::prelude::*;

verus! {

#[derive(Debug, Clone, PartialEq, Eq)]
pub struct CanonicalTimestamp(pub String);

#[derive(Debug, Clone, PartialEq, Eq)]
pub struct ArtifactId(pub String);

#[derive(Debug, Clone, PartialEq, Eq)]
pub struct ContentHash(pub String);

#[derive(Debug, Clone, PartialEq, Eq)]
pub struct RendererVersion(pub String);

#[derive(Debug, Clone, PartialEq, Eq)]
pub struct ReportSchemaId(pub String);

/// Where a report came from: its sources, their hashes, and the renderer.
#[derive(Debug, Clone, PartialEq, Eq)]
pub struct ReportGenerationContext {
    pub generated_at: CanonicalTimestamp,
    pub source_artifact_ids: Vec<ArtifactId>,
    pub source_hashes: Vec<ContentHash>,
    pub renderer_version: RendererVersion,
    pub report_schema_id: ReportSchemaId,
}

/// What a report may do. A report renders observations; it creates no
/// meaning, promotes no evidence, certifies no transition and ranks nothing
/// for execution.
#[derive(Debug, Clone, PartialEq, Eq, Structural)]
pub struct ReportAuthority {
    pub may_create_meaning: bool,
    pub may_promote_evidence: bool,
    pub may_certify_transition: bool,
    pub may_rank_for_execution: bool,
    pub may_render_observation: bool,
}

/// The authority a report has unless stated otherwise: rendering only.
pub open spec fn render_only() -> ReportAuthority {
    ReportAuthority {
        may_create_meaning: false,
        may_promote_evidence: false,
        may_certify_transition: false,
        may_rank_for_execution: false,
        may_render_observation: true,
    }
}

impl Default for ReportAuthority {
    fn default() -> (r: Self)
        ensures r == render_only(),
    {
        ReportAuthority {
            may_create_meaning: false,
            may_promote_evidence: false,
            may_certify_transition: false,
            may_rank_for_execution: false,
            may_render_observation: true,
        }
    }
}

/// A rendered report with its provenance and authority.
#[derive(Debug, Clone, PartialEq, Eq)]
pub struct ReportManifest {
    pub context: ReportGenerationContext,
    pub authority: ReportAuthority,
    pub rendered_hash: String,
}

impl ReportManifest {
    /// A manifest with empty provenance, no sources and render-only
    /// authority.
    pub fn dummy() -> (r: Self)
        ensures
            r.context.generated_at.0@.len() == 0,
            r.context.source_artifact_ids@.len() == 0,
            r.context.source_hashes@.len() == 0,
            r.context.renderer_version.0@.len() == 0,
            r.context.report_schema_id.0@.len() == 0,
            r.authority == render_only(),
            r.rendered_hash@.len() == 0,
    {
        ReportManifest {
            context: ReportGenerationContext {
                generated_at: CanonicalTimestamp(String::new()),
                source_artifact_ids: Vec::new(),
                source_hashes: Vec::new(),
                renderer_version: RendererVersion(String::new()),
                report_schema_id: ReportSchemaId(String::new()),
            },
            authority: ReportAuthority::default(),
            rendered_hash: String::new(),
        }
    }
}

} // verus!
