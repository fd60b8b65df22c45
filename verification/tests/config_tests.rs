use litho::config::{
    default_chunk_overlap, default_chunk_size, default_chunk_strategy, default_code_insights_limit,
    default_excluded_dirs, default_excluded_extensions, default_excluded_files, default_false,
    default_files_threshold, default_max_boundary_insights, default_max_turns,
    default_min_size_for_chunking, default_tool_concurrency, default_true, BoundaryAnalysisConfig,
    CacheConfig, ChunkingConfig, KnowledgeConfig, LLMProvider,
};

const ALL: [LLMProvider; 8] = [
    LLMProvider::OpenAI,
    LLMProvider::Moonshot,
    LLMProvider::DeepSeek,
    LLMProvider::Mistral,
    LLMProvider::OpenRouter,
    LLMProvider::Anthropic,
    LLMProvider::Gemini,
    LLMProvider::Ollama,
];

#[test]
fn test_boundary_analysis_default_values() {
    let config = BoundaryAnalysisConfig::default();

    assert_eq!(config.max_boundary_insights, 15);
    assert_eq!(config.code_insights_limit, 25);
    assert_eq!(config.include_source_code, false);
    assert_eq!(config.only_directories_when_files_more_than, Some(100));
}

#[test]
fn boundary_defaults_match_field_defaults() {
    let config = BoundaryAnalysisConfig::default();
    assert_eq!(config.max_boundary_insights, default_max_boundary_insights());
    assert_eq!(config.code_insights_limit, default_code_insights_limit());
    assert_eq!(config.include_source_code, default_false());
    assert_eq!(config.only_directories_when_files_more_than, default_files_threshold());
}

#[test]
fn chunking_defaults_match_field_defaults() {
    let c = ChunkingConfig::default();
    assert_eq!(c.enabled, default_true());
    assert_eq!(c.max_chunk_size, default_chunk_size());
    assert_eq!(c.chunk_overlap, default_chunk_overlap());
    assert_eq!(c.strategy, default_chunk_strategy());
    assert_eq!(c.min_size_for_chunking, default_min_size_for_chunking());
    assert_eq!(c.max_chunk_size, 8000);
    assert_eq!(c.chunk_overlap, 200);
    assert_eq!(c.strategy, "semantic");
    assert_eq!(c.min_size_for_chunking, 10000);
    assert!(c.enabled);
}

#[test]
fn field_default_values() {
    assert_eq!(default_max_turns(), 100);
    assert_eq!(default_tool_concurrency(), 4);
    assert_eq!(default_max_boundary_insights(), 15);
    assert_eq!(default_code_insights_limit(), 25);
    assert_eq!(default_files_threshold(), Some(100));
    assert_eq!(default_chunk_size(), 8000);
    assert_eq!(default_chunk_overlap(), 200);
    assert_eq!(default_chunk_strategy(), "semantic");
    assert_eq!(default_min_size_for_chunking(), 10000);
    assert!(default_true());
    assert!(!default_false());
}

#[test]
fn cache_and_knowledge_defaults() {
    let c = CacheConfig::default();
    assert!(c.enabled);
    assert_eq!(c.cache_dir, ".litho/cache");
    assert_eq!(c.expire_hours, 8760);
    assert!(KnowledgeConfig::default().local_docs.is_none());
}

#[test]
fn excluded_defaults() {
    let dirs = default_excluded_dirs();
    assert_eq!(dirs.len(), 13);
    assert_eq!(dirs[0], ".litho");
    assert_eq!(dirs[2], "target");
    assert_eq!(dirs[12], "__fixtures__");
    let files = default_excluded_files();
    assert_eq!(files.len(), 15);
    assert_eq!(files[0], "litho.toml");
    assert_eq!(files[9], "Cargo.lock");
    assert_eq!(files[14], ".env");
    let exts = default_excluded_extensions();
    assert_eq!(exts.len(), 16);
    assert_eq!(exts[0], "jpg");
    assert_eq!(exts[15], "archive");
}

#[test]
fn provider_default_is_openai() {
    assert_eq!(LLMProvider::default(), LLMProvider::OpenAI);
}

#[test]
fn provider_names() {
    assert_eq!(LLMProvider::OpenAI.to_string(), "openai");
    assert_eq!(LLMProvider::Moonshot.to_string(), "moonshot");
    assert_eq!(LLMProvider::DeepSeek.to_string(), "deepseek");
    assert_eq!(LLMProvider::Mistral.to_string(), "mistral");
    assert_eq!(LLMProvider::OpenRouter.to_string(), "openrouter");
    assert_eq!(LLMProvider::Anthropic.to_string(), "anthropic");
    assert_eq!(LLMProvider::Gemini.to_string(), "gemini");
    assert_eq!(LLMProvider::Ollama.to_string(), "ollama");
}

#[test]
fn provider_name_round_trip() {
    for p in ALL {
        assert_eq!(LLMProvider::from_str(&p.to_string()), Ok(p));
        assert_eq!(LLMProvider::from_str(&p.to_string().to_uppercase()), Ok(p));
    }
}

#[test]
fn provider_parse_ignores_case() {
    assert_eq!(LLMProvider::from_str("OpenAI"), Ok(LLMProvider::OpenAI));
    assert_eq!(LLMProvider::from_str("DeepSeek"), Ok(LLMProvider::DeepSeek));
    assert_eq!(LLMProvider::from_str("OLLAMA"), Ok(LLMProvider::Ollama));
    // The Kelvin sign lowercases to an ASCII 'k'.
    assert_eq!(LLMProvider::from_str("DEEPSEE\u{212A}"), Ok(LLMProvider::DeepSeek));
}

#[test]
fn provider_parse_unknown() {
    assert_eq!(
        LLMProvider::from_str("azure"),
        Err("Unknown provider: azure".to_string())
    );
    assert_eq!(
        LLMProvider::from_str(" openai"),
        Err("Unknown provider:  openai".to_string())
    );
    assert_eq!(LLMProvider::from_str(""), Err("Unknown provider: ".to_string()));
}

#[test]
fn provider_from_lowercase_name_is_exact() {
    assert_eq!(LLMProvider::from_lowercase_name("gemini"), Some(LLMProvider::Gemini));
    assert_eq!(LLMProvider::from_lowercase_name("Gemini"), None);
}
