use ccr::ids::{MessageId, ModelId, RequestId, SessionId};
use ccr::pricing::{
    calculate_cost, calculate_entry_cost, calculate_usage_cost, ModelPricing, TokenUsage,
};
use ccr::usage::{CacheCreation, Message, Usage, UsageEntry, UsageEntryData};

fn opus_rates() -> ModelPricing {
    ModelPricing {
        input_cost_per_token: 1500,
        output_cost_per_token: 7500,
        cache_creation_input_token_cost: 1875,
        cache_read_input_token_cost: 150,
        cache_creation_1h_token_cost: 3000,
    }
}

fn old_format(
    input_tokens: Option<u32>,
    output_tokens: Option<u32>,
    cache_creation_tokens: Option<u32>,
    cache_read_tokens: Option<u32>,
    model: &str,
) -> UsageEntry {
    UsageEntry {
        data: UsageEntryData {
            timestamp: Some("2024-01-15T10:00:00.000Z".to_string()),
            model: Some(ModelId::from(model)),
            cost_usd: None,
            message: Some(Message {
                id: Some(MessageId::from("msg-1")),
                model: Some(ModelId::from(model)),
                usage: Some(Usage {
                    input_tokens,
                    output_tokens,
                    cache_creation_input_tokens: cache_creation_tokens,
                    cache_read_input_tokens: cache_read_tokens,
                    cache_creation: None,
                    service_tier: None,
                }),
            }),
            request_id: Some(RequestId::from("req-1")),
        },
        session_id: SessionId::from("test-session"),
    }
}

fn new_format(
    input_tokens: Option<u32>,
    output_tokens: Option<u32>,
    cache_5m_tokens: Option<u32>,
    cache_1h_tokens: Option<u32>,
    cache_read_tokens: Option<u32>,
    model: &str,
) -> UsageEntry {
    UsageEntry {
        data: UsageEntryData {
            timestamp: Some("2024-01-15T10:00:00.000Z".to_string()),
            model: Some(ModelId::from(model)),
            cost_usd: None,
            message: Some(Message {
                id: Some(MessageId::from("msg-1")),
                model: Some(ModelId::from(model)),
                usage: Some(Usage {
                    input_tokens,
                    output_tokens,
                    cache_creation_input_tokens: None,
                    cache_read_input_tokens: cache_read_tokens,
                    cache_creation: Some(CacheCreation {
                        ephemeral_5m_input_tokens: cache_5m_tokens,
                        ephemeral_1h_input_tokens: cache_1h_tokens,
                    }),
                    service_tier: None,
                }),
            }),
            request_id: Some(RequestId::from("req-1")),
        },
        session_id: SessionId::from("test-session"),
    }
}

fn with_cost(cost_usd: i64) -> UsageEntry {
    UsageEntry {
        data: UsageEntryData {
            timestamp: Some("2024-01-15T10:00:00.000Z".to_string()),
            model: Some(ModelId::from("sonnet")),
            cost_usd: Some(cost_usd),
            message: None,
            request_id: Some(RequestId::from("req-1")),
        },
        session_id: SessionId::from("test-session"),
    }
}

#[test]
fn test_model_pricing_fields() {
    let pricing = opus_rates();
    assert_eq!(pricing.input_cost_per_token, 1500);
    assert_eq!(pricing.output_cost_per_token, 7500);
}

#[test]
fn test_calculate_cost() {
    let pricing = opus_rates();
    let tokens = TokenUsage {
        input_tokens: 1000,
        output_tokens: 500,
        cache_creation_tokens: 200,
        cache_read_tokens: 300,
    };
    let cost = tokens.calculate_cost(&pricing);
    assert_eq!(cost, 5_670_000);
    assert!((cost as f64 / 1e8 - 0.0567).abs() < 1e-10);

    let tokens_zero = TokenUsage {
        input_tokens: 1000,
        output_tokens: 500,
        cache_creation_tokens: 0,
        cache_read_tokens: 0,
    };
    let cost_zero = tokens_zero.calculate_cost(&pricing);
    assert_eq!(cost_zero, 5_250_000);
    assert!((cost_zero as f64 / 1e8 - 0.0525).abs() < 1e-10);
    assert_eq!(calculate_cost(&tokens, &pricing), 5_670_000);
}

#[test]
fn test_calculate_entry_cost_with_precalculated() {
    let entry = with_cost(567_000_000);
    assert_eq!(calculate_entry_cost(&entry), 567_000_000);
}

#[test]
fn test_calculate_entry_cost_old_format() {
    let entry = old_format(Some(1000), Some(500), Some(200), Some(300), "sonnet");
    let cost = calculate_entry_cost(&entry);
    assert!(cost > 0);
    assert_eq!(cost, 1000 * 300 + 500 * 1500 + 200 * 375 + 300 * 30);
}

#[test]
fn test_calculate_entry_cost_new_format_with_5m_cache() {
    let entry = new_format(Some(1000), Some(500), Some(200), None, Some(300), "sonnet");
    let cost = calculate_entry_cost(&entry);
    assert!(cost > 0);
    assert_eq!(cost, 1000 * 300 + 500 * 1500 + 200 * 375 + 300 * 30);
}

#[test]
fn test_calculate_entry_cost_new_format_with_1h_cache() {
    let entry = new_format(Some(1000), Some(500), None, Some(400), Some(300), "sonnet");
    let cost = calculate_entry_cost(&entry);
    assert!(cost > 0);
    assert_eq!(cost, 1000 * 300 + 500 * 1500 + 400 * 600 + 300 * 30);
}

#[test]
fn test_calculate_entry_cost_new_format_with_both_caches() {
    let entry = new_format(Some(1000), Some(500), Some(200), Some(400), Some(300), "sonnet");
    let cost = calculate_entry_cost(&entry);
    assert!(cost > 0);

    let entry_5m_only = new_format(Some(1000), Some(500), Some(600), None, Some(300), "sonnet");
    let cost_5m_only = calculate_entry_cost(&entry_5m_only);
    assert!(cost > cost_5m_only);
}

#[test]
fn test_calculate_entry_cost_with_missing_data() {
    let entry_no_message = UsageEntry {
        data: UsageEntryData {
            timestamp: None,
            model: None,
            cost_usd: None,
            message: None,
            request_id: None,
        },
        session_id: SessionId::from("test-session"),
    };
    assert_eq!(calculate_entry_cost(&entry_no_message), 0);

    let entry_no_usage = UsageEntry {
        data: UsageEntryData {
            timestamp: None,
            model: Some(ModelId::from("sonnet")),
            cost_usd: None,
            message: Some(Message { id: None, model: Some(ModelId::from("sonnet")), usage: None }),
            request_id: None,
        },
        session_id: SessionId::from("test-session"),
    };
    assert_eq!(calculate_entry_cost(&entry_no_usage), 0);

    let entry_no_model = UsageEntry {
        data: UsageEntryData {
            timestamp: None,
            model: None,
            cost_usd: None,
            message: Some(Message {
                id: None,
                model: None,
                usage: Some(Usage {
                    input_tokens: Some(100),
                    output_tokens: Some(50),
                    cache_creation_input_tokens: None,
                    cache_read_input_tokens: None,
                    cache_creation: None,
                    service_tier: None,
                }),
            }),
            request_id: None,
        },
        session_id: SessionId::from("test-session"),
    };
    assert_eq!(calculate_entry_cost(&entry_no_model), 0);
}

#[test]
fn test_calculate_entry_cost_with_all_none_tokens() {
    let entry = old_format(None, None, None, None, "sonnet");
    assert_eq!(calculate_entry_cost(&entry), 0);
}

#[test]
fn test_different_model_pricing() {
    let sonnet_entry = old_format(Some(1000), Some(500), None, None, "sonnet");
    let opus_entry = old_format(Some(1000), Some(500), None, None, "opus");
    let haiku_entry = old_format(Some(1000), Some(500), None, None, "haiku");

    let sonnet_cost = calculate_entry_cost(&sonnet_entry);
    let opus_cost = calculate_entry_cost(&opus_entry);
    let haiku_cost = calculate_entry_cost(&haiku_entry);

    assert!(sonnet_cost > 0);
    assert!(opus_cost > 0);
    assert!(haiku_cost > 0);

    assert_ne!(sonnet_cost, opus_cost);
    assert_ne!(sonnet_cost, haiku_cost);
    assert_ne!(opus_cost, haiku_cost);
}

#[test]
fn test_cache_creation_pricing_difference() {
    let entry_5m = new_format(None, None, Some(1000), None, None, "sonnet");
    let entry_1h = new_format(None, None, None, Some(1000), None, "sonnet");
    let cost_5m = calculate_entry_cost(&entry_5m);
    let cost_1h = calculate_entry_cost(&entry_1h);
    assert!(cost_1h > cost_5m);
}

#[test]
fn test_model_fallback_from_message_to_entry() {
    let entry = UsageEntry {
        data: UsageEntryData {
            timestamp: None,
            model: Some(ModelId::from("sonnet")),
            cost_usd: None,
            message: Some(Message {
                id: None,
                model: None,
                usage: Some(Usage {
                    input_tokens: Some(100),
                    output_tokens: Some(50),
                    cache_creation_input_tokens: None,
                    cache_read_input_tokens: None,
                    cache_creation: None,
                    service_tier: None,
                }),
            }),
            request_id: None,
        },
        session_id: SessionId::from("test-session"),
    };
    let cost = calculate_entry_cost(&entry);
    assert!(cost > 0);
    assert_eq!(cost, 100 * 300 + 50 * 1500);
}

#[test]
fn message_model_wins_over_record_model() {
    let mut entry = old_format(Some(1000), None, None, None, "opus");
    entry.data.model = Some(ModelId::from("sonnet"));
    assert_eq!(calculate_entry_cost(&entry), 1000 * 1500);
}

#[test]
fn tier_weighted_sum_at_opus_rates() {
    let entry = old_format(Some(1000), Some(500), Some(200), Some(300), "opus");
    let cost = calculate_entry_cost(&entry);
    assert_eq!(cost, 5_670_000);
    assert!((cost as f64 / 1e8 - 0.0567).abs() < 1e-10);
}

#[test]
fn precomputed_cost_ignores_tokens() {
    let mut entry = old_format(Some(1000), Some(500), Some(200), Some(300), "opus");
    entry.data.cost_usd = Some(567_000_000);
    assert_eq!(calculate_entry_cost(&entry), 567_000_000);
}

#[test]
fn unknown_model_costs_nothing() {
    let entry = old_format(Some(1000), Some(500), Some(200), Some(300), "gpt-4");
    assert_eq!(calculate_entry_cost(&entry), 0);
    assert_eq!(ModelPricing::from(&ModelId::from("gpt-4")), ModelPricing::zero());
}

#[test]
fn family_is_read_from_lower_case_form() {
    assert_eq!(ModelPricing::from(&ModelId::from("My-OPUS-Model")), ModelPricing::opus());
    assert_eq!(ModelPricing::from(&ModelId::from("SONNET")), ModelPricing::sonnet());
    assert_eq!(ModelPricing::from(&ModelId::from("Haiku-3")), ModelPricing::haiku());
    assert!(ModelId::from("Big-Opus").is_opus());
    assert!(!ModelId::from("Big-Opus").is_sonnet());
    assert!(ModelId::from("sonnet-4").is_sonnet());
}

#[test]
fn keywords_are_tried_in_order() {
    assert_eq!(ModelPricing::for_lowercase_name("opus-sonnet-haiku"), ModelPricing::opus());
    assert_eq!(ModelPricing::for_lowercase_name("haiku-sonnet"), ModelPricing::sonnet());
    assert_eq!(ModelPricing::for_lowercase_name("haiku"), ModelPricing::haiku());
    assert_eq!(ModelPricing::for_lowercase_name("OPUS"), ModelPricing::zero());
    assert_eq!(ModelPricing::for_lowercase_name(""), ModelPricing::zero());
}

#[test]
fn usage_cost_counts_absent_as_zero() {
    let usage = Usage {
        input_tokens: None,
        output_tokens: Some(2),
        cache_creation_input_tokens: Some(7),
        cache_read_input_tokens: None,
        cache_creation: Some(CacheCreation {
            ephemeral_5m_input_tokens: None,
            ephemeral_1h_input_tokens: Some(3),
        }),
        service_tier: None,
    };
    assert_eq!(calculate_usage_cost(&usage, &opus_rates()), 2 * 7500 + 3 * 3000);
}

#[test]
fn largest_counts_do_not_overflow() {
    let top = ModelPricing {
        input_cost_per_token: u16::MAX,
        output_cost_per_token: u16::MAX,
        cache_creation_input_token_cost: u16::MAX,
        cache_read_input_token_cost: u16::MAX,
        cache_creation_1h_token_cost: u16::MAX,
    };
    let usage = Usage {
        input_tokens: Some(u32::MAX),
        output_tokens: Some(u32::MAX),
        cache_creation_input_tokens: None,
        cache_read_input_tokens: Some(u32::MAX),
        cache_creation: Some(CacheCreation {
            ephemeral_5m_input_tokens: Some(u32::MAX),
            ephemeral_1h_input_tokens: Some(u32::MAX),
        }),
        service_tier: None,
    };
    assert_eq!(calculate_usage_cost(&usage, &top), 5 * (u32::MAX as i64) * (u16::MAX as i64));
}
