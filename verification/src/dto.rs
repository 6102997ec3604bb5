//! Request and response bodies of the admin API and the parameters of the
//! pipeline's sub-agents: plain records, serialised outside the library.
use vstd::prelude::*;

verus! {

/// Whether an agent was stopped.
pub struct StopResponse {
    pub stopped: bool,
}

/// A campaign directory and how many files it holds.
pub struct CampaignInfo {
    pub name: String,
    pub file_count: usize,
}

/// One file of a campaign.
pub struct CampaignFile {
    pub filename: String,
    /// Relative path from the campaign root, e.g. `session1/opening.md`.
    pub path: String,
    /// The file's directory relative to the campaign root (`session1`), none
    /// for files at the root.
    pub subdir: Option<String>,
    pub size_bytes: u64,
}

/// A file's name and contents.
pub struct FileContents {
    pub filename: String,
    pub contents: String,
}

/// New contents for a campaign file.
pub struct WriteFileBody {
    pub content: String,
}

/// A note to append to the campaign notes.
pub struct AppendNoteBody {
    pub text: String,
}

/// Where a note went and the line appended.
pub struct AppendNoteResponse {
    pub filename: String,
    pub appended: String,
}

/// Whether an agent definition was deleted.
pub struct DeleteResponse {
    pub deleted: bool,
}

/// An edge to add to the knowledge graph.
pub struct CreateEdgeBody {
    pub edge_id: Option<String>,
    pub from_id: String,
    pub to_id: String,
    pub relationship: Option<String>,
    pub body: Option<String>,
}

/// A file to classify into the knowledge graph.
pub struct IngestBody {
    pub filename: String,
    pub content: String,
    /// Agent domain to route to; defaults to `file-classification`.
    pub domain: Option<String>,
    /// If set, used as the task intent verbatim.
    pub intent_override: Option<String>,
    /// Override of the default iteration limit (12).
    pub max_iterations: Option<u32>,
}

/// Parameters of the fact checker.
pub struct FactCheckParams {
    pub task_type: String,
    pub ollama_host: String,
    pub model: String,
    pub character: String,
    pub action: String,
    pub grounding_block: String,
}

/// Parameters of the rules assessor.
pub struct RulesAssessParams {
    pub task_type: String,
    pub ollama_host: String,
    pub model: String,
    pub character: String,
    pub action: String,
    /// Compact current state table.
    pub party_state: String,
    /// Check types and tiers from the rules.
    pub rules_context: String,
}

/// Parameters of the DM writer.
pub struct DmWriteParams {
    pub task_type: String,
    pub ollama_host: String,
    pub model: String,
    pub campaign_name: String,
    pub session_dir: String,
    pub scene_dir: String,
    pub character: String,
    pub action: String,
    pub campaign_facts: String,
    pub critic_context: String,
    pub dice_context: String,
    pub system_prompt: String,
}

/// Parameters of the character-impact tracker.
pub struct CharImpactParams {
    pub task_type: String,
    pub ollama_host: String,
    pub model: String,
    pub character: String,
    /// `SUCCESS`, `FAILURE` or `NO_ROLL`.
    pub roll_outcome: String,
    /// Outcome and consequence, without notation.
    pub dice_context: String,
    pub dm_prose: String,
    /// Compact current state table.
    pub party_state: String,
    pub cosmic_rules: String,
}

/// Parameters of the summarizer.
pub struct DmSummarizeParams {
    pub task_type: String,
    pub ollama_host: String,
    pub model: String,
    pub character: String,
    pub prose: String,
}

/// Where an agent definition is deployed.
#[derive(Debug, Clone, Copy, PartialEq, Eq, Structural)]
pub enum Deployment {
    Test,
    Prod,
}

} // verus!
