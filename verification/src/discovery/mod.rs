//! What discovery reports about a model file on disk.
use vstd::prelude::*;

pub mod scanner;

verus! {

/// Which scan root family a model was found under.
#[derive(Debug, Clone, Copy, PartialEq, Eq, Structural)]
pub enum ModelSource {
    /// A directory the user configured.
    UserPath,
    /// The HuggingFace hub cache.
    HuggingFace,
    /// Ollama's model store.
    Ollama,
    /// LM Studio's model directory.
    LmStudio,
}

/// Wire label of a source.
pub open spec fn source_label(s: ModelSource) -> Seq<char> {
    match s {
        ModelSource::UserPath => "user"@,
        ModelSource::HuggingFace => "huggingface"@,
        ModelSource::Ollama => "ollama"@,
        ModelSource::LmStudio => "lmstudio"@,
    }
}

impl ModelSource {
    /// The short label shown in catalog rows.
    pub fn label(&self) -> (r: String)
        ensures
            r@ == source_label(*self),
    {
        match self {
            ModelSource::UserPath => crate::text::owned("user"),
            ModelSource::HuggingFace => crate::text::owned("huggingface"),
            ModelSource::Ollama => crate::text::owned("ollama"),
            ModelSource::LmStudio => crate::text::owned("lmstudio"),
        }
    }
}

/// The part of a parsed GGUF header that the catalog surfaces.
#[derive(Debug)]
pub struct ModelMetadata {
    /// `general.architecture` (e.g. `llama`, `qwen3`).
    pub arch: Option<String>,
    /// Quantization label (e.g. `Q4_K`).
    pub quant: String,
    /// Native training context length.
    pub native_ctx: Option<u32>,
    /// Human parameter label (e.g. `7B`).
    pub parameter_label: Option<String>,
    /// Size of the weights in bytes.
    pub weights_bytes: Option<u64>,
}

/// One launchable model found by a scan.
#[derive(Debug)]
pub struct DiscoveredModel {
    /// Path of the launch file (shard 1 for split sets).
    pub path: String,
    /// Directory holding `path`.
    pub parent: String,
    /// Scan root family.
    pub source: ModelSource,
    /// Header metadata; `None` when the header did not parse.
    pub metadata: Option<ModelMetadata>,
    /// Diagnostic for a header that did not parse.
    pub parse_error: Option<String>,
    /// The other shards of a split set (never the launch file itself).
    pub split_siblings: Vec<String>,
    /// A display label supplied by the source (Ollama's `name:tag`).
    pub display_label: Option<String>,
}

} // verus!
