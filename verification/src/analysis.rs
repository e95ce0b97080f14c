//! The analysis document: what an external LLM reports about a source, and
//! what the wiki ingests from it.
use vstd::prelude::*;

verus! {

/// Document type — the external LLM classifies the source.
#[derive(Debug, Clone, Copy, PartialEq, Eq, Structural)]
pub enum DocType {
    ResearchPaper,
    BlogPost,
    Transcript,
    Thread,
    Note,
    BookChapter,
}

/// Confidence level for a claim.
#[derive(Debug, Clone, Copy, PartialEq, Eq, Structural)]
pub enum Confidence {
    High,
    Medium,
    Low,
}

/// Wiki page category.
#[derive(Debug, Clone, Copy, PartialEq, Eq, Structural)]
pub enum PageType {
    Concept,
    SourceSummary,
    QueryResult,
    Contradiction,
}

/// Action to take when integrating a suggested page into the wiki.
#[derive(Debug, Clone, Copy, PartialEq, Eq, Structural)]
pub enum Action {
    /// Create a new page. Fails if the slug already exists.
    Create,
    /// Replace the body of an existing page, merging frontmatter fields.
    Update,
    /// Add a new section to the end of an existing page's body.
    Append,
}

/// The dimension along which two claims contradict each other.
#[derive(Debug, Clone, Copy, PartialEq, Eq, Structural)]
pub enum Dimension {
    /// Each claim holds in a different context or domain.
    Context,
    /// One claim was superseded by the other over time.
    Time,
    /// Each claim applies at a different scale.
    Scale,
    /// Different measurement methodologies yield different results.
    Methodology,
    /// The field has not resolved this dispute.
    OpenDispute,
}

/// Lifecycle status of a contradiction node.
#[derive(Debug, Clone, Copy, PartialEq, Eq, Structural)]
pub enum Status {
    /// The contradiction has been analysed and its resolution documented.
    Resolved,
    /// The contradiction is unresolved and awaiting enrichment.
    Active,
    /// An external LLM is currently enriching this contradiction.
    UnderAnalysis,
}

/// A single factual claim extracted from the source document.
#[derive(Debug, Clone, PartialEq)]
pub struct Claim {
    /// The claim statement.
    pub text: String,
    /// How confident the external LLM is in this claim.
    pub confidence: Confidence,
    /// Section of the source document where the claim appears.
    pub section: String,
}

/// A wiki page to create, update, or append to; `body` is Markdown without
/// frontmatter, which the wiki generates from the other fields.
#[derive(Debug, Clone, PartialEq)]
pub struct SuggestedPage {
    /// Canonical path relative to the wiki root (e.g. `concepts/mixture-of-experts`).
    pub slug: String,
    /// Human-readable page title.
    pub title: String,
    /// Page category (the `type` key).
    pub page_type: PageType,
    /// Whether to create, replace, or extend the page.
    pub action: Action,
    /// One-sentence summary surfaced in search results and frontmatter.
    pub tldr: String,
    /// Full Markdown body without frontmatter.
    pub body: String,
    /// Tags for search and cross-referencing.
    pub tags: Vec<String>,
    /// Conditions under which an LLM should retrieve this page.
    pub read_when: Vec<String>,
}

/// A contradiction between two claims from different sources. Contradictions
/// are never deleted, only enriched.
#[derive(Debug, Clone, PartialEq)]
pub struct Contradiction {
    /// Short descriptive title for the contradiction page.
    pub title: String,
    /// The first claim.
    pub claim_a: String,
    /// Slug of the source page for claim A.
    pub source_a: String,
    /// The second claim.
    pub claim_b: String,
    /// Slug of the source page for claim B.
    pub source_b: String,
    /// The dimension along which the claims contradict.
    pub dimension: Dimension,
    /// What the tension reveals that neither source captures alone.
    pub epistemic_value: String,
    /// Current lifecycle status.
    pub status: Status,
    /// Explanation of the resolution, when `status` is `Resolved`.
    pub resolution: Option<String>,
}

/// What an external LLM reports after reading a source document.
#[derive(Debug, Clone, PartialEq)]
pub struct Analysis {
    /// Path or URL to the original source document.
    pub source: String,
    /// Document type classification.
    pub doc_type: DocType,
    /// Title of the source document.
    pub title: String,
    /// BCP 47 language code (e.g. `"en"`).
    pub language: String,
    /// Factual claims extracted from the source.
    pub claims: Vec<Claim>,
    /// Key concepts mentioned in the source.
    pub concepts: Vec<String>,
    /// Verbatim quotations worth preserving.
    pub key_quotes: Vec<String>,
    /// Gaps in the source's coverage or evaluation.
    pub data_gaps: Vec<String>,
    /// Pages to create, update, or append to.
    pub suggested_pages: Vec<SuggestedPage>,
    /// Contradictions detected against existing wiki pages.
    pub contradictions: Vec<Contradiction>,
}

} // verus!
