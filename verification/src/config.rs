//! Configuration sections of the agent (the parts that carry no floating-point field).
use vstd::prelude::*;

verus! {

/// Where the agent keeps its files.
#[derive(Debug)]
pub struct PathsConfig {
    /// Working directory; when absent or blank, the user's home directory is used.
    pub home_dir: Option<String>,
    /// Long-term context file, absolute or relative to the working directory.
    pub context_file: String,
    /// Tool-call database, absolute or relative to the working directory.
    pub database: String,
}

/// Web search endpoint.
#[derive(Debug)]
pub struct WebSearchConfig {
    pub url: String,
    pub api_key: Option<String>,
}

/// Summarizer endpoint.
#[derive(Debug)]
pub struct SummarizerConfig {
    pub url: String,
    pub model: String,
}

/// Paths of the prompt files.
#[derive(Debug)]
pub struct PromptsConfig {
    pub main_system: String,
    pub summarizer: String,
}

/// Command safety settings.
#[derive(Debug)]
pub struct SecurityConfig {
    /// Keywords (matched case-insensitively) that make a command refused.
    pub denylist: Vec<String>,
}

/// Conversation context settings.
#[derive(Debug)]
pub struct ContextConfig {
    /// Total message size (in bytes) above which the conversation is summarized.
    pub summarize_threshold: usize,
}

/// JSON tools that the model may call.
#[derive(Debug)]
pub struct JsonToolsConfig {
    pub enabled: Vec<String>,
}

impl Default for JsonToolsConfig {
    /// No tool enabled.
    fn default() -> (r: Self)
        ensures
            r.enabled@.len() == 0,
    {
        JsonToolsConfig { enabled: Vec::new() }
    }
}

} // verus!
