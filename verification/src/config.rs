//! Configuration types and their defaults: the LLM provider, the cache,
//! boundary analysis, external knowledge and document chunking.
//!
//! Paths are held as strings here.
use vstd::prelude::*;
use vstd::utf8::is_ascii_chars;

verus! {

// ---------------------------------------------------------------------------
// LLM provider
// ---------------------------------------------------------------------------

/// The service that answers LLM requests.
#[derive(Clone, Copy, Debug, PartialEq, Eq, Structural)]
pub enum LLMProvider {
    OpenAI,
    Moonshot,
    DeepSeek,
    Mistral,
    OpenRouter,
    Anthropic,
    Gemini,
    Ollama,
}

/// The lowercase form of a string, as `str::to_lowercase` computes it (the
/// Unicode lowercase mapping of each character).
pub uninterp spec fn lowercase(s: Seq<char>) -> Seq<char>;

/// ASCII lowercase of one character.
pub open spec fn ascii_lower_char(c: char) -> char {
    if 'A' <= c && c <= 'Z' {
        ((c as int) + 32) as char
    } else {
        c
    }
}

/// ASCII lowercase of a string: `A`..`Z` mapped to `a`..`z`, the rest kept.
pub open spec fn ascii_lowercase(s: Seq<char>) -> Seq<char> {
    Seq::new(s.len(), |i: int| ascii_lower_char(s[i]))
}

/// `str::to_lowercase`.
///
/// Trusted: the result is the name `lowercase` of the argument; on an ASCII
/// string it is the string with `A`..`Z` mapped to `a`..`z`.  What it is on
/// other strings (the Unicode case tables) is not stated.
#[verifier::external_body]
fn to_lowercase(s: &str) -> (r: String)
    ensures
        r@ == lowercase(s@),
        is_ascii_chars(s@) ==> r@ == ascii_lowercase(s@),
{
    s.to_lowercase()
}

impl LLMProvider {
    /// The provider's name, as configuration files and messages write it.
    pub open spec fn name(self) -> Seq<char> {
        match self {
            LLMProvider::OpenAI => "openai"@,
            LLMProvider::Moonshot => "moonshot"@,
            LLMProvider::DeepSeek => "deepseek"@,
            LLMProvider::Mistral => "mistral"@,
            LLMProvider::OpenRouter => "openrouter"@,
            LLMProvider::Anthropic => "anthropic"@,
            LLMProvider::Gemini => "gemini"@,
            LLMProvider::Ollama => "ollama"@,
        }
    }

    /// The provider whose name is exactly `name`.
    pub open spec fn named(name: Seq<char>) -> Option<LLMProvider> {
        if name == "openai"@ {
            Some(LLMProvider::OpenAI)
        } else if name == "moonshot"@ {
            Some(LLMProvider::Moonshot)
        } else if name == "deepseek"@ {
            Some(LLMProvider::DeepSeek)
        } else if name == "mistral"@ {
            Some(LLMProvider::Mistral)
        } else if name == "openrouter"@ {
            Some(LLMProvider::OpenRouter)
        } else if name == "anthropic"@ {
            Some(LLMProvider::Anthropic)
        } else if name == "gemini"@ {
            Some(LLMProvider::Gemini)
        } else if name == "ollama"@ {
            Some(LLMProvider::Ollama)
        } else {
            None
        }
    }

    /// The provider's name (what `Display` writes).
    pub fn to_string(&self) -> (r: String)
        ensures
            r@ == self.name(),
    {
        match self {
            LLMProvider::OpenAI => String::from_str("openai"),
            LLMProvider::Moonshot => String::from_str("moonshot"),
            LLMProvider::DeepSeek => String::from_str("deepseek"),
            LLMProvider::Mistral => String::from_str("mistral"),
            LLMProvider::OpenRouter => String::from_str("openrouter"),
            LLMProvider::Anthropic => String::from_str("anthropic"),
            LLMProvider::Gemini => String::from_str("gemini"),
            LLMProvider::Ollama => String::from_str("ollama"),
        }
    }

    /// The provider whose name is exactly `lower` (already lowercased).
    pub fn from_lowercase_name(lower: &str) -> (r: Option<LLMProvider>)
        ensures
            r == LLMProvider::named(lower@),
    {
        let l = String::from_str(lower);
        if l == String::from_str("openai") {
            Some(LLMProvider::OpenAI)
        } else if l == String::from_str("moonshot") {
            Some(LLMProvider::Moonshot)
        } else if l == String::from_str("deepseek") {
            Some(LLMProvider::DeepSeek)
        } else if l == String::from_str("mistral") {
            Some(LLMProvider::Mistral)
        } else if l == String::from_str("openrouter") {
            Some(LLMProvider::OpenRouter)
        } else if l == String::from_str("anthropic") {
            Some(LLMProvider::Anthropic)
        } else if l == String::from_str("gemini") {
            Some(LLMProvider::Gemini)
        } else if l == String::from_str("ollama") {
            Some(LLMProvider::Ollama)
        } else {
            None
        }
    }

    /// Parses a provider name, ignoring case; an unknown name gives the error
    /// `Unknown provider: <s>`.
    pub fn from_str(s: &str) -> (r: Result<LLMProvider, String>)
        ensures
            match r {
                Ok(p) => LLMProvider::named(lowercase(s@)) == Some(p),
                Err(msg) => LLMProvider::named(lowercase(s@)) is None && msg@ == "Unknown provider: "@
                    + s@,
            },
            is_ascii_chars(s@) ==> match r {
                Ok(p) => LLMProvider::named(ascii_lowercase(s@)) == Some(p),
                Err(_) => LLMProvider::named(ascii_lowercase(s@)) is None,
            },
    {
        let lower = to_lowercase(s);
        match LLMProvider::from_lowercase_name(lower.as_str()) {
            Some(p) => Ok(p),
            None => {
                let mut msg = String::from_str("Unknown provider: ");
                msg.append(s);
                Err(msg)
            },
        }
    }
}

/// A provider's name is ASCII and lowercase, and it names that provider and
/// no other: so what `to_string` writes, `from_str` reads back as the same
/// provider, whatever the case of its letters.
pub proof fn lemma_name_parses_back(p: LLMProvider)
    ensures
        is_ascii_chars(p.name()),
        ascii_lowercase(p.name()) == p.name(),
        LLMProvider::named(p.name()) == Some(p),
{
    reveal_strlit("openai");
    reveal_strlit("moonshot");
    reveal_strlit("deepseek");
    reveal_strlit("mistral");
    reveal_strlit("openrouter");
    reveal_strlit("anthropic");
    reveal_strlit("gemini");
    reveal_strlit("ollama");
    let n = p.name();
    assert(ascii_lowercase(n) =~= n);
    assert("moonshot"@[0] != "openai"@[0]);
    assert("deepseek"@[0] != "openai"@[0]);
    assert("deepseek"@[0] != "moonshot"@[0]);
    assert("mistral"@[0] != "openai"@[0]);
    assert("mistral"@[0] != "moonshot"@[0] || "mistral"@.len() != "moonshot"@.len());
    assert("openrouter"@.len() != "openai"@.len());
    assert("anthropic"@[0] != "openai"@[0]);
    assert("gemini"@[0] != "openai"@[0]);
    assert("ollama"@[1] != "openai"@[1]);
}

impl Default for LLMProvider {
    fn default() -> (r: Self)
        ensures
            r == LLMProvider::OpenAI,
    {
        LLMProvider::OpenAI
    }
}

// ---------------------------------------------------------------------------
// Defaults of fields that a configuration file may leave out
// ---------------------------------------------------------------------------

/// Default maximum number of tool-calling turns of an agent.
#[verifier::allow_in_spec]
pub fn default_max_turns() -> usize
    returns
        100usize,
{
    100
}

/// Default number of tool calls run at the same time.
#[verifier::allow_in_spec]
pub fn default_tool_concurrency() -> usize
    returns
        4usize,
{
    4
}

/// Default maximum number of boundary code insights analysed.
#[verifier::allow_in_spec]
pub fn default_max_boundary_insights() -> usize
    returns
        15usize,
{
    15
}

/// Default number of code insights included in a prompt.
#[verifier::allow_in_spec]
pub fn default_code_insights_limit() -> usize
    returns
        25usize,
{
    25
}

/// Default file count above which only directories are shown.
#[verifier::allow_in_spec]
pub fn default_files_threshold() -> Option<usize>
    returns
        Some(100usize),
{
    Some(100)
}

/// Default maximum chunk size, in characters.
#[verifier::allow_in_spec]
pub fn default_chunk_size() -> usize
    returns
        8000usize,
{
    8000
}

/// Default overlap between chunks, in characters.
#[verifier::allow_in_spec]
pub fn default_chunk_overlap() -> usize
    returns
        200usize,
{
    200
}

/// Default chunking strategy.
pub fn default_chunk_strategy() -> (r: String)
    ensures
        r@ == "semantic"@,
{
    String::from_str("semantic")
}

/// Default minimum document size, in characters, that triggers chunking.
#[verifier::allow_in_spec]
pub fn default_min_size_for_chunking() -> usize
    returns
        10000usize,
{
    10000
}

/// `true`, the default of flags that are on unless turned off.
#[verifier::allow_in_spec]
pub fn default_true() -> bool
    returns
        true,
{
    true
}

/// `false`, the default of flags that are off unless turned on.
#[verifier::allow_in_spec]
pub fn default_false() -> bool
    returns
        false,
{
    false
}

/// Directories that the scan of a project skips by default.
pub open spec fn default_excluded_dirs_view() -> Seq<Seq<char>> {
    seq![
        ".litho"@,
        "litho.docs"@,
        "target"@,
        "node_modules"@,
        ".git"@,
        "build"@,
        "dist"@,
        "venv"@,
        ".svelte-kit"@,
        "__pycache__"@,
        "__tests__"@,
        "__mocks__"@,
        "__fixtures__"@,
    ]
}

/// Directories that the scan of a project skips by default.
pub fn default_excluded_dirs() -> (r: Vec<String>)
    ensures
        r@.map_values(|s: String| s@) == default_excluded_dirs_view(),
{
    let r = vec![
        String::from_str(".litho"),
        String::from_str("litho.docs"),
        String::from_str("target"),
        String::from_str("node_modules"),
        String::from_str(".git"),
        String::from_str("build"),
        String::from_str("dist"),
        String::from_str("venv"),
        String::from_str(".svelte-kit"),
        String::from_str("__pycache__"),
        String::from_str("__tests__"),
        String::from_str("__mocks__"),
        String::from_str("__fixtures__"),
    ];
    assert(r@.map_values(|s: String| s@) =~= default_excluded_dirs_view());
    r
}

/// File names and patterns that the scan of a project skips by default.
pub open spec fn default_excluded_files_view() -> Seq<Seq<char>> {
    seq![
        "litho.toml"@,
        "*.litho"@,
        "*.log"@,
        "*.tmp"@,
        "*.cache"@,
        "bun.lock"@,
        "package-lock.json"@,
        "yarn.lock"@,
        "pnpm-lock.yaml"@,
        "Cargo.lock"@,
        ".gitignore"@,
        "*.tpl"@,
        "*.md"@,
        "*.txt"@,
        ".env"@,
    ]
}

/// File names and patterns that the scan of a project skips by default.
pub fn default_excluded_files() -> (r: Vec<String>)
    ensures
        r@.map_values(|s: String| s@) == default_excluded_files_view(),
{
    let r = vec![
        String::from_str("litho.toml"),
        String::from_str("*.litho"),
        String::from_str("*.log"),
        String::from_str("*.tmp"),
        String::from_str("*.cache"),
        String::from_str("bun.lock"),
        String::from_str("package-lock.json"),
        String::from_str("yarn.lock"),
        String::from_str("pnpm-lock.yaml"),
        String::from_str("Cargo.lock"),
        String::from_str(".gitignore"),
        String::from_str("*.tpl"),
        String::from_str("*.md"),
        String::from_str("*.txt"),
        String::from_str(".env"),
    ];
    assert(r@.map_values(|s: String| s@) =~= default_excluded_files_view());
    r
}

/// File extensions that the scan of a project skips by default.
pub open spec fn default_excluded_extensions_view() -> Seq<Seq<char>> {
    seq![
        "jpg"@,
        "jpeg"@,
        "png"@,
        "gif"@,
        "bmp"@,
        "ico"@,
        "mp3"@,
        "mp4"@,
        "avi"@,
        "pdf"@,
        "zip"@,
        "tar"@,
        "exe"@,
        "dll"@,
        "so"@,
        "archive"@,
    ]
}

/// File extensions that the scan of a project skips by default.
pub fn default_excluded_extensions() -> (r: Vec<String>)
    ensures
        r@.map_values(|s: String| s@) == default_excluded_extensions_view(),
{
    let r = vec![
        String::from_str("jpg"),
        String::from_str("jpeg"),
        String::from_str("png"),
        String::from_str("gif"),
        String::from_str("bmp"),
        String::from_str("ico"),
        String::from_str("mp3"),
        String::from_str("mp4"),
        String::from_str("avi"),
        String::from_str("pdf"),
        String::from_str("zip"),
        String::from_str("tar"),
        String::from_str("exe"),
        String::from_str("dll"),
        String::from_str("so"),
        String::from_str("archive"),
    ];
    assert(r@.map_values(|s: String| s@) =~= default_excluded_extensions_view());
    r
}

// ---------------------------------------------------------------------------
// Configuration sections
// ---------------------------------------------------------------------------

/// Cache configuration.
#[derive(Clone, Debug)]
pub struct CacheConfig {
    /// Whether to enable the cache.
    pub enabled: bool,
    /// Cache directory.
    pub cache_dir: String,
    /// Cache expiration time (hours).
    pub expire_hours: u64,
}

impl Default for CacheConfig {
    fn default() -> (r: Self)
        ensures
            r.enabled,
            r.cache_dir@ == ".litho/cache"@,
            r.expire_hours == 8760,
    {
        CacheConfig { enabled: true, cache_dir: String::from_str(".litho/cache"), expire_hours: 8760 }
    }
}

/// Boundary analysis configuration.
#[derive(Clone, Copy, Debug)]
pub struct BoundaryAnalysisConfig {
    /// Maximum number of boundary code insights to analyse.
    pub max_boundary_insights: usize,
    /// How many code insights are included in the prompt.
    pub code_insights_limit: usize,
    /// Whether to include source code in boundary analysis.
    pub include_source_code: bool,
    /// Only show directories when the file count exceeds this threshold.
    pub only_directories_when_files_more_than: Option<usize>,
}

impl Default for BoundaryAnalysisConfig {
    /// Every field takes the default that a configuration file that leaves it
    /// out gives it.
    fn default() -> (r: Self)
        ensures
            r.max_boundary_insights == default_max_boundary_insights(),
            r.code_insights_limit == default_code_insights_limit(),
            r.include_source_code == default_false(),
            r.only_directories_when_files_more_than == default_files_threshold(),
    {
        BoundaryAnalysisConfig {
            max_boundary_insights: default_max_boundary_insights(),
            code_insights_limit: default_code_insights_limit(),
            include_source_code: default_false(),
            only_directories_when_files_more_than: default_files_threshold(),
        }
    }
}

/// Configuration for document chunking.
#[derive(Clone, Debug)]
pub struct ChunkingConfig {
    /// Enable chunking for large documents.
    pub enabled: bool,
    /// Maximum chunk size in characters.
    pub max_chunk_size: usize,
    /// Overlap between chunks in characters.
    pub chunk_overlap: usize,
    /// Chunking strategy: "semantic" (by sections), "fixed" (fixed size), "paragraph".
    pub strategy: String,
    /// Minimum document size (characters) to trigger chunking.
    pub min_size_for_chunking: usize,
}

impl Default for ChunkingConfig {
    /// Every field takes the default that a configuration file that leaves it
    /// out gives it.
    fn default() -> (r: Self)
        ensures
            r.enabled == default_true(),
            r.max_chunk_size == default_chunk_size(),
            r.chunk_overlap == default_chunk_overlap(),
            r.strategy@ == "semantic"@,
            r.min_size_for_chunking == default_min_size_for_chunking(),
    {
        ChunkingConfig {
            enabled: true,
            max_chunk_size: 8000,
            chunk_overlap: 200,
            strategy: String::from_str("semantic"),
            min_size_for_chunking: 10000,
        }
    }
}

/// Document category for organising external knowledge.
#[derive(Clone, Debug)]
pub struct DocumentCategory {
    /// Category identifier (e.g. "architecture", "database", "api").
    pub name: String,
    /// Human-readable description of this category.
    pub description: String,
    /// File paths or glob patterns for this category.
    pub paths: Vec<String>,
    /// Which agents receive documents from this category (all where empty).
    pub target_agents: Vec<String>,
    /// Chunking configuration for large documents in this category.
    pub chunking: Option<ChunkingConfig>,
}

/// Local documentation files configuration.
#[derive(Clone, Debug)]
pub struct LocalDocsConfig {
    /// Whether local docs integration is enabled.
    pub enabled: bool,
    /// Categorised document sources.
    pub categories: Vec<DocumentCategory>,
    /// Local cache directory for processed content.
    pub cache_dir: Option<String>,
    /// Whether to re-process files if they change.
    pub watch_for_changes: bool,
    /// Default chunking configuration for all categories.
    pub default_chunking: Option<ChunkingConfig>,
}

/// Knowledge configuration for external documentation sources.
#[derive(Clone, Debug)]
pub struct KnowledgeConfig {
    /// Local documentation files configuration.
    pub local_docs: Option<LocalDocsConfig>,
}

impl Default for KnowledgeConfig {
    fn default() -> (r: Self)
        ensures
            r.local_docs is None,
    {
        KnowledgeConfig { local_docs: None }
    }
}

} // verus!
