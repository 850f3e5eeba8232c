use emas::config::{elite_count_for, Config, ConfigError, Provider};
use emas::form::{
    clock_text, describe_fitness, format_token_count, score_bar, FieldKind, FormField, Screen,
};
use emas::llm::{
    estimate_tokens, gemini_generate_url, normalize_base_url, openai_chat_url, usage_tokens,
    LlmResponse,
};
use emas::orchestrator::FitnessScore;

fn config() -> Config {
    Config {
        provider: Provider::Google,
        api_base_url: "u".to_string(),
        api_key: "k".to_string(),
        model: "m".to_string(),
        population_size: 5,
        team_size: 3,
        max_generations: 10,
        fitness_threshold: 8_500_000,
        mutation_rate: 300_000,
        elite_count: 0,
        max_tokens: 1024,
        quality_weight: 500_000,
        consistency_weight: 300_000,
        efficiency_weight: 200_000,
        judge_provider: Provider::Openai,
        judge_api_base_url: "ju".to_string(),
        judge_api_key: "jk".to_string(),
        judge_model: "jm".to_string(),
    }
}

#[test]
fn elite_counts() {
    assert_eq!(elite_count_for(2), 1);
    assert_eq!(elite_count_for(3), 2);
    assert_eq!(elite_count_for(4), 2);
    assert_eq!(elite_count_for(5), 2);
    assert_eq!(elite_count_for(6), 3);
    assert_eq!(elite_count_for(10), 4);
    assert_eq!(elite_count_for(11), 5);
    assert_eq!(elite_count_for(100), 40);
    assert_eq!(elite_count_for(usize::MAX), usize::MAX / 5 * 2);
}

#[test]
fn valid_settings_get_their_elite_count() {
    let c = config().validate().unwrap();
    assert_eq!(c.elite_count, 2);
    assert_eq!(c.population_size, 5);
    assert_eq!(c.provider, Provider::Google);
    assert_eq!(c.judge_model, "jm");
    let mut four = config();
    four.population_size = 4;
    four.team_size = 1;
    four.max_generations = 1;
    four.fitness_threshold = 10_000_000;
    assert_eq!(four.validate().unwrap().elite_count, 2);
}

#[test]
fn broken_settings_are_refused_in_order() {
    let mut c = config();
    c.population_size = 1;
    c.team_size = 0;
    assert_eq!(c.validate().err(), Some(ConfigError::PopulationTooSmall));
    let mut c = config();
    c.team_size = 0;
    c.mutation_rate = 1_000_001;
    assert_eq!(c.validate().err(), Some(ConfigError::TeamSizeZero));
    let mut c = config();
    c.mutation_rate = 1_000_001;
    c.fitness_threshold = 0;
    assert_eq!(c.validate().err(), Some(ConfigError::MutationRateOutOfRange));
    let mut c = config();
    c.fitness_threshold = 999_999;
    c.api_key = String::new();
    assert_eq!(c.validate().err(), Some(ConfigError::ThresholdOutOfRange));
    let mut c = config();
    c.fitness_threshold = 10_000_001;
    assert_eq!(c.validate().err(), Some(ConfigError::ThresholdOutOfRange));
    let mut c = config();
    c.efficiency_weight = 1_000_001;
    c.api_key = String::new();
    assert_eq!(c.validate().err(), Some(ConfigError::WeightOutOfRange));
    let mut c = config();
    c.quality_weight = u32::MAX;
    assert_eq!(c.validate().err(), Some(ConfigError::WeightOutOfRange));
    let mut c = config();
    c.consistency_weight = 4_000_000_000;
    assert_eq!(c.validate().err(), Some(ConfigError::WeightOutOfRange));
    let mut c = config();
    c.quality_weight = 1_000_000;
    c.consistency_weight = 0;
    c.efficiency_weight = 1_000_000;
    assert!(c.validate().is_ok());
    let mut c = config();
    c.api_key = String::new();
    c.max_generations = usize::MAX;
    assert_eq!(c.validate().err(), Some(ConfigError::MissingApiKey));
    let mut c = config();
    c.max_generations = usize::MAX;
    assert_eq!(c.validate().err(), Some(ConfigError::TooManyGenerations));
    let mut c = config();
    c.mutation_rate = 1_000_000;
    c.fitness_threshold = 1_000_000;
    assert!(c.validate().is_ok());
    let mut c = config();
    c.mutation_rate = 0;
    c.fitness_threshold = 10_000_000;
    c.max_generations = 0;
    assert!(c.validate().is_ok());
}

#[test]
fn error_messages_and_provider_names() {
    assert_eq!(ConfigError::PopulationTooSmall.message(), "Population size must be at least 2");
    assert_eq!(ConfigError::TeamSizeZero.message(), "Team size must be at least 1");
    assert_eq!(ConfigError::MutationRateOutOfRange.message(), "Mutation rate must be between 0.0 and 1.0");
    assert_eq!(ConfigError::ThresholdOutOfRange.message(), "Fitness threshold must be between 1.0 and 10.0");
    assert_eq!(ConfigError::WeightOutOfRange.message(), "Fitness weights must be between 0.0 and 1.0");
    assert_eq!(ConfigError::TooManyGenerations.message(), "Generations must be below 4294967296");
    assert_eq!(
        ConfigError::MissingApiKey.message(),
        "No API key found. Set EMAS_API_KEY, GOOGLE_API_KEY, or OPENAI_API_KEY in your environment or .env file, or pass --api-key on the command line."
    );
    assert_eq!(Provider::Openai.label(), "OpenAI");
    assert_eq!(Provider::Google.label(), "Google Gemini");
    assert_eq!(Provider::Openai.default_base_url(), "https://api.openai.com/v1");
    assert_eq!(Provider::Google.default_base_url(), "https://generativelanguage.googleapis.com/v1beta");
    assert_eq!(Provider::Openai.default_model(), "gpt-4o-mini");
    assert_eq!(Provider::Google.default_model(), "gemini-2.0-flash-lite");
}

#[test]
fn token_estimates() {
    assert_eq!(estimate_tokens("abcdefgh"), (0, 2, 2));
    assert_eq!(estimate_tokens("abc"), (0, 0, 0));
    assert_eq!(estimate_tokens(""), (0, 0, 0));
    assert_eq!(estimate_tokens("ééé"), (0, 1, 1));
    assert_eq!(usage_tokens(Some(3), Some(4), Some(10)), (3, 4, 10));
    assert_eq!(usage_tokens(Some(3), Some(4), None), (3, 4, 7));
    assert_eq!(usage_tokens(None, Some(4), None), (0, 4, 4));
    assert_eq!(usage_tokens(None, None, None), (0, 0, 0));
    assert_eq!(usage_tokens(Some(u32::MAX), Some(1), None), (u32::MAX, 1, u32::MAX));
    let r = LlmResponse { content: "c".to_string(), prompt_tokens: 1, completion_tokens: 2, total_tokens: 3 };
    let c = r.clone();
    assert_eq!((c.content.as_str(), c.prompt_tokens, c.completion_tokens, c.total_tokens), ("c", 1, 2, 3));
}

#[test]
fn addresses() {
    assert_eq!(normalize_base_url("https://x/v1///"), "https://x/v1");
    assert_eq!(normalize_base_url("https://x/v1"), "https://x/v1");
    assert_eq!(normalize_base_url("///"), "");
    assert_eq!(normalize_base_url(""), "");
    assert_eq!(openai_chat_url("https://x/v1"), "https://x/v1/chat/completions");
    assert_eq!(
        gemini_generate_url("https://g/v1beta", "gemini-pro", "KEY"),
        "https://g/v1beta/models/gemini-pro:generateContent?key=KEY"
    );
}

#[test]
fn fields_show_their_value() {
    let f = FormField::text("Model", "gpt", "(auto)");
    assert_eq!(f.display_value(), "gpt");
    assert_eq!(f.label, "Model");
    assert!(!f.sensitive);
    assert!(matches!(f.kind, FieldKind::Text));
    assert_eq!(FormField::text("Model", "", "(auto)").display_value(), "(auto)");
    let s = FormField::sensitive("API Key", "sk-abcdef", "$KEY");
    assert!(s.sensitive);
    assert_eq!(s.display_value(), "sk-a*****");
    assert_eq!(FormField::sensitive("API Key", "abc", "$KEY").display_value(), "abc");
    assert_eq!(FormField::sensitive("API Key", "abcd", "$KEY").display_value(), "abcd");
    assert_eq!(FormField::sensitive("API Key", "abcdé", "$KEY").display_value(), "abcd**");
    assert_eq!(FormField::sensitive("API Key", "", "$KEY").display_value(), "$KEY");
}

#[test]
fn selections_go_round() {
    let mut f = FormField::select("Provider", vec!["auto", "openai", "google"], 1);
    assert_eq!(f.value, "openai");
    assert_eq!(f.placeholder, "");
    f.select_next();
    assert_eq!(f.value, "google");
    f.select_next();
    assert_eq!(f.value, "auto");
    assert!(matches!(f.kind, FieldKind::Select { index: 0, .. }));
    f.select_prev();
    assert_eq!(f.value, "google");
    f.select_prev();
    assert_eq!(f.value, "openai");
    assert_eq!(f.display_value(), "openai");
    let mut t = FormField::text("Model", "gpt", "(auto)");
    t.select_next();
    t.select_prev();
    assert_eq!(t.value, "gpt");
    let mut one = FormField::select("One", vec!["only"], 0);
    one.select_next();
    assert_eq!(one.value, "only");
    one.select_prev();
    assert_eq!(one.value, "only");
    assert_ne!(Screen::Setup, Screen::Running);
    assert_ne!(Screen::Running, Screen::Results);
}

#[test]
fn clock_and_counts() {
    assert_eq!(clock_text(0), "00:00:00");
    assert_eq!(clock_text(3661), "01:01:01");
    assert_eq!(clock_text(86_399), "23:59:59");
    assert_eq!(clock_text(86_405), "00:00:05");
    assert_eq!(clock_text(1_700_000_000), "22:13:20");
    assert_eq!(format_token_count(0), "0");
    assert_eq!(format_token_count(999), "999");
    assert_eq!(format_token_count(1_000), "1.0k");
    assert_eq!(format_token_count(1_500), "1.5k");
    assert_eq!(format_token_count(1_250), "1.2k");
    assert_eq!(format_token_count(1_350), "1.4k");
    assert_eq!(format_token_count(1_251), "1.3k");
    assert_eq!(format_token_count(999_949), "999.9k");
    assert_eq!(format_token_count(999_950), "1000.0k");
    assert_eq!(format_token_count(1_000_000), "1.0M");
    assert_eq!(format_token_count(2_345_678), "2.3M");
    assert_eq!(format_token_count(12_960_000), "13.0M");
}

#[test]
fn bars_and_fitness_text() {
    assert_eq!(score_bar(7_500_000), "###############-----");
    assert_eq!(score_bar(10_000_000), "####################");
    assert_eq!(score_bar(u32::MAX), "####################");
    assert_eq!(score_bar(0), "--------------------");
    assert_eq!(score_bar(499_999), "--------------------");
    assert_eq!(score_bar(500_000), "#-------------------");
    assert_eq!(score_bar(9_999_999), "###################-");
    let mut s = FitnessScore {
        quality: 8_000_000,
        consistency: 6_040_000,
        efficiency: 5_000_000,
        diversity_penalty: 500_000,
        total: 6_300_000,
        judge_critique: String::new(),
    };
    assert_eq!(describe_fitness(&s), "6.30  (Q:8.0 C:6.0 E:5.0 D:-0.5)");
    s.diversity_penalty = 10_000;
    s.total = 6_815_000;
    s.consistency = 6_050_001;
    assert_eq!(describe_fitness(&s), "6.82  (Q:8.0 C:6.1 E:5.0)");
    s.total = 6_825_000;
    s.diversity_penalty = 10_001;
    assert_eq!(describe_fitness(&s), "6.82  (Q:8.0 C:6.1 E:5.0 D:-0.0)");
    s.total = 10_000_000;
    s.quality = 9_950_000;
    assert_eq!(describe_fitness(&s), "10.00  (Q:10.0 C:6.1 E:5.0 D:-0.0)");
}

#[test]
fn copies_of_fields_and_settings() {
    let mut f = FormField::select("Provider", vec!["openai", "google"], 0);
    let c = f.clone();
    f.select_next();
    assert_eq!(c.value, "openai");
    assert!(matches!(c.kind, FieldKind::Select { index: 0, .. }));
    assert_eq!(f.value, "google");
    let s = FormField::sensitive("API Key", "secret", "$KEY").clone();
    assert!(s.sensitive);
    assert_eq!(s.display_value(), "secr**");
    let cfg = config();
    let copy = cfg.clone();
    assert_eq!(copy.api_key, cfg.api_key);
    assert_eq!(copy.judge_api_base_url, "ju");
    assert_eq!(copy.population_size, 5);
    assert_eq!(copy.efficiency_weight, 200_000);
}
