use security_core::time::{Duration, Timestamp};
use security_core::tools::llm_judge::{
    Judgment, JudgmentCache, JudgmentCategory, JudgmentPolicy, OllamaClient, PolicyAction,
};

#[test]
fn test_ollama_client_creation() {
    let client = OllamaClient::new("http://localhost:11434".to_string(), "llama2".to_string());
    assert_eq!(client.endpoint, "http://localhost:11434");
    assert_eq!(client.model, "llama2");
}

#[test]
fn test_judgment_cache_store_and_retrieve() {
    let mut cache = JudgmentCache::new(10);
    let judgment = Judgment {
        category: JudgmentCategory::Safe,
        confidence: 95,
        reasoning: "Safe input".to_string(),
        timestamp: Timestamp::now(),
    };

    cache.store("hash1".to_string(), judgment.clone(), Duration::hours(1));
    let retrieved = cache.get("hash1").unwrap();

    assert_eq!(retrieved.category, JudgmentCategory::Safe);
    assert_eq!(retrieved.confidence, 95);
}

#[test]
fn test_judgment_cache_eviction() {
    let mut cache = JudgmentCache::new(2);

    for i in 0..3 {
        let judgment = Judgment {
            category: JudgmentCategory::Safe,
            confidence: 90,
            reasoning: format!("Input {}", i),
            timestamp: Timestamp::now(),
        };
        cache.store(format!("hash{}", i), judgment, Duration::hours(1));
    }

    assert_eq!(cache.size(), 2);
}

#[test]
fn test_judgment_policy() {
    let policy = JudgmentPolicy::new();

    assert_eq!(policy.get_action(JudgmentCategory::Safe), PolicyAction::Allow);
    assert_eq!(
        policy.get_action(JudgmentCategory::Suspicious),
        PolicyAction::RequireConfirmation
    );
    assert_eq!(policy.get_action(JudgmentCategory::Dangerous), PolicyAction::Deny);
}

#[test]
fn test_judgment_policy_customization() {
    let mut policy = JudgmentPolicy::new();
    policy.set_action(JudgmentCategory::Safe, PolicyAction::RequireConfirmation);

    assert_eq!(
        policy.get_action(JudgmentCategory::Safe),
        PolicyAction::RequireConfirmation
    );
}

fn safe(reasoning: &str) -> Judgment {
    Judgment {
        category: JudgmentCategory::Safe,
        confidence: 90,
        reasoning: reasoning.to_string(),
        timestamp: Timestamp::new(0, 0),
    }
}

#[test]
fn judgment_cache_evicts_the_first_stored() {
    let mut cache = JudgmentCache::new(2);
    for i in 0..3 {
        cache.store(format!("hash{}", i), safe("x"), Duration::hours(1));
    }
    assert_eq!(cache.size(), 2);
    assert!(cache.get("hash0").is_none());
    assert!(cache.get("hash1").is_some());
    assert!(cache.get("hash2").is_some());
}

#[test]
fn judgment_cache_evicts_the_smallest_time_of_storing() {
    let mut cache = JudgmentCache::new(3);
    let ttl = Duration::hours(1);
    cache.store_at("late".to_string(), safe("late"), ttl, Timestamp::new(300, 0));
    cache.store_at("early".to_string(), safe("early"), ttl, Timestamp::new(100, 0));
    cache.store_at("middle".to_string(), safe("middle"), ttl, Timestamp::new(200, 0));
    assert_eq!(cache.size(), 3);
    let now = Timestamp::new(400, 0);
    cache.store_at("new".to_string(), safe("new"), ttl, now);
    assert_eq!(cache.size(), 3);
    assert!(cache.get_at("early", now).is_none());
    assert_eq!(cache.get_at("late", now).unwrap().reasoning, "late");
    assert_eq!(cache.get_at("middle", now).unwrap().reasoning, "middle");
    assert_eq!(cache.get_at("new", now).unwrap().reasoning, "new");
}

#[test]
fn judgment_cache_breaks_ties_by_order_of_storing() {
    let mut cache = JudgmentCache::new(2);
    let t = Timestamp::new(100, 0);
    let ttl = Duration::hours(1);
    cache.store_at("a".to_string(), safe("a"), ttl, t);
    cache.store_at("b".to_string(), safe("b"), ttl, t);
    cache.store_at("c".to_string(), safe("c"), ttl, t);
    assert!(cache.get_at("a", t).is_none());
    assert!(cache.get_at("b", t).is_some());
    assert!(cache.get_at("c", t).is_some());
}

#[test]
fn judgment_cache_entry_expires_at_its_time_to_live() {
    let mut cache = JudgmentCache::new(4);
    let stored = Timestamp::new(1_000, 0);
    cache.store_at("h".to_string(), safe("x"), Duration::seconds(10), stored);
    assert!(cache.get_at("h", stored).is_some());
    assert!(cache.get_at("h", Timestamp::new(1_009, 999_999_999)).is_some());
    assert!(cache.get_at("h", Timestamp::new(1_010, 0)).is_none());
    assert!(cache.get_at("h", Timestamp::new(2_000, 0)).is_none());
    // an expired entry is not purged by a read
    assert_eq!(cache.size(), 1);
    // a time to live of zero never hits
    cache.store_at("z".to_string(), safe("z"), Duration::zero(), stored);
    assert!(cache.get_at("z", stored).is_none());
    assert!(cache.get_at("missing", stored).is_none());
}

#[test]
fn judgment_cache_overwrite_and_clear() {
    let mut cache = JudgmentCache::new(5);
    let t = Timestamp::new(10, 0);
    cache.store_at("h".to_string(), safe("first"), Duration::hours(1), t);
    cache.store_at("h".to_string(), safe("second"), Duration::hours(1), t);
    assert_eq!(cache.size(), 1);
    assert_eq!(cache.get_at("h", t).unwrap().reasoning, "second");
    cache.clear();
    assert_eq!(cache.size(), 0);
    assert!(cache.get_at("h", t).is_none());
}

#[test]
fn judgment_cache_full_cache_makes_room_before_it_overwrites() {
    let mut cache = JudgmentCache::new(2);
    let ttl = Duration::hours(1);
    cache.store_at("a".to_string(), safe("a"), ttl, Timestamp::new(1, 0));
    cache.store_at("b".to_string(), safe("b"), ttl, Timestamp::new(2, 0));
    // storing "b" again in a full cache evicts "a" first
    cache.store_at("b".to_string(), safe("b2"), ttl, Timestamp::new(3, 0));
    assert_eq!(cache.size(), 1);
    assert!(cache.get_at("a", Timestamp::new(3, 0)).is_none());
    assert_eq!(cache.get_at("b", Timestamp::new(3, 0)).unwrap().reasoning, "b2");
}

#[test]
fn judgment_cache_of_capacity_zero_holds_one_entry() {
    let mut cache = JudgmentCache::new(0);
    let t = Timestamp::new(1, 0);
    cache.store_at("a".to_string(), safe("a"), Duration::hours(1), t);
    assert_eq!(cache.size(), 1);
    cache.store_at("b".to_string(), safe("b"), Duration::hours(1), t);
    assert_eq!(cache.size(), 1);
    assert!(cache.get_at("a", t).is_none());
    assert!(cache.get_at("b", t).is_some());
}

#[test]
fn policy_defaults_and_changes() {
    let mut policy = JudgmentPolicy::new();
    assert_eq!(policy.get_action(JudgmentCategory::Unknown), PolicyAction::RequireConfirmation);
    policy.set_action(JudgmentCategory::Unknown, PolicyAction::Deny);
    assert_eq!(policy.get_action(JudgmentCategory::Unknown), PolicyAction::Deny);
    assert_eq!(policy.get_action(JudgmentCategory::Safe), PolicyAction::Allow);
    assert_eq!(policy.get_action(JudgmentCategory::Suspicious), PolicyAction::RequireConfirmation);
    assert_eq!(policy.get_action(JudgmentCategory::Dangerous), PolicyAction::Deny);
    policy.set_action(JudgmentCategory::Dangerous, PolicyAction::Allow);
    policy.set_action(JudgmentCategory::Suspicious, PolicyAction::Allow);
    assert_eq!(policy.get_action(JudgmentCategory::Dangerous), PolicyAction::Allow);
    assert_eq!(policy.get_action(JudgmentCategory::Suspicious), PolicyAction::Allow);
    assert_eq!(policy.get_action(JudgmentCategory::Unknown), PolicyAction::Deny);
}

#[test]
fn a_failed_classifier_call_counts_as_dangerous() {
    let policy = JudgmentPolicy::new();
    let failed: Result<Judgment, String> = Err("unreachable".to_string());
    assert_eq!(policy.action_for_outcome(&failed), PolicyAction::Deny);
    assert_eq!(policy.action_for_outcome(&Ok(safe("fine"))), PolicyAction::Allow);
    let mut unknown = safe("?");
    unknown.category = JudgmentCategory::Unknown;
    assert_eq!(policy.action_for_outcome(&Ok(unknown)), PolicyAction::RequireConfirmation);
}

#[test]
fn request_names_url_model_and_prompt() {
    let mut client = OllamaClient::new("http://localhost:11434".to_string(), "llama2".to_string());
    assert_eq!(client.timeout_ms, 5000);
    client.set_timeout(250);
    let request = client.build_request("rm -rf /");
    assert_eq!(request.url, "http://localhost:11434/api/generate");
    assert_eq!(request.model, "llama2");
    assert_eq!(
        request.prompt,
        "Classify this input as Safe, Suspicious, Dangerous, or Unknown. Respond with JSON: {\"category\": \"...\", \"confidence\": 0-100, \"reasoning\": \"...\"} \n\nrm -rf /"
    );
    assert!(!request.stream);
    assert_eq!(request.timeout_ms, 250);
}

#[test]
fn reply_with_all_fields_is_read() {
    let now = Timestamp::new(77, 3);
    let body = "{\"model\":\"llama2\",\"response\":\"{\\\"category\\\": \\\"Dangerous\\\", \\\"confidence\\\": 97, \\\"reasoning\\\": \\\"deletes files\\\"}\",\"done\":true}";
    let judgment = OllamaClient::parse_reply(body, now).unwrap();
    assert_eq!(judgment.category, JudgmentCategory::Dangerous);
    assert_eq!(judgment.confidence, 97);
    assert_eq!(judgment.reasoning, "deletes files");
    assert_eq!(judgment.timestamp, now);
}

#[test]
fn reply_with_missing_fields_takes_the_defaults() {
    let now = Timestamp::new(1, 0);
    let judgment = OllamaClient::parse_reply("{\"response\":\"{}\"}", now).unwrap();
    assert_eq!(judgment.category, JudgmentCategory::Unknown);
    assert_eq!(judgment.confidence, 50);
    assert_eq!(judgment.reasoning, "No reasoning provided");

    let body = "{\"response\":\"{\\\"category\\\": \\\"Weird\\\", \\\"confidence\\\": \\\"high\\\", \\\"reasoning\\\": 5}\"}";
    let judgment = OllamaClient::parse_reply(body, now).unwrap();
    assert_eq!(judgment.category, JudgmentCategory::Unknown);
    assert_eq!(judgment.confidence, 50);
    assert_eq!(judgment.reasoning, "No reasoning provided");

    let body = "{\"response\":\"{\\\"category\\\": \\\"Safe\\\", \\\"confidence\\\": 7.5}\"}";
    let judgment = OllamaClient::parse_reply(body, now).unwrap();
    assert_eq!(judgment.category, JudgmentCategory::Safe);
    assert_eq!(judgment.confidence, 50);

    let body = "{\"response\":\"{\\\"category\\\": \\\"Suspicious\\\", \\\"confidence\\\": 300}\"}";
    let judgment = OllamaClient::parse_reply(body, now).unwrap();
    assert_eq!(judgment.category, JudgmentCategory::Suspicious);
    assert_eq!(judgment.confidence, 50);

    let body = "{\"response\":\"{\\\"category\\\": \\\"Safe\\\", \\\"confidence\\\": 100}\"}";
    assert_eq!(OllamaClient::parse_reply(body, now).unwrap().confidence, 100);
    let body = "{\"response\":\"{\\\"category\\\": \\\"Safe\\\", \\\"confidence\\\": 101}\"}";
    assert_eq!(OllamaClient::parse_reply(body, now).unwrap().confidence, 50);
    let body = "{\"response\":\"{\\\"category\\\": \\\"Safe\\\", \\\"confidence\\\": 0}\"}";
    assert_eq!(OllamaClient::parse_reply(body, now).unwrap().confidence, 0);

    // a reply that is JSON but no object has no members
    let judgment = OllamaClient::parse_reply("{\"response\":\"[1, 2]\"}", now).unwrap();
    assert_eq!(judgment.category, JudgmentCategory::Unknown);
}

#[test]
fn reply_that_cannot_be_read_is_an_error() {
    let now = Timestamp::new(1, 0);
    assert_eq!(
        OllamaClient::parse_reply("not json", now).err(),
        Some("Failed to parse response".to_string())
    );
    assert_eq!(
        OllamaClient::parse_reply("", now).err(),
        Some("Failed to parse response".to_string())
    );
    assert_eq!(
        OllamaClient::parse_reply("{\"done\":true}", now).err(),
        Some("Failed to parse Ollama response".to_string())
    );
    assert_eq!(
        OllamaClient::parse_reply("{\"response\":42}", now).err(),
        Some("Failed to parse Ollama response".to_string())
    );
    assert_eq!(
        OllamaClient::parse_reply("{\"response\":\"I think it is safe\"}", now).err(),
        Some("Failed to parse Ollama response".to_string())
    );
}

#[test]
fn outcome_of_the_exchange_is_read() {
    let now = Timestamp::new(1, 0);
    assert_eq!(
        OllamaClient::judge_reply(Err("connection refused".to_string()), now).err(),
        Some(
            "Ollama connection failed: connection refused. Defaulting to conservative deny."
                .to_string()
        )
    );
    let body = "{\"response\":\"{\\\"category\\\": \\\"Safe\\\"}\"}".to_string();
    let judgment = OllamaClient::judge_reply(Ok(body), now).unwrap();
    assert_eq!(judgment.category, JudgmentCategory::Safe);
    assert!(OllamaClient::judge_reply(Ok("garbage".to_string()), now).is_err());
}

#[test]
fn categories_by_name() {
    assert_eq!(JudgmentCategory::from_name("Safe"), JudgmentCategory::Safe);
    assert_eq!(JudgmentCategory::from_name("Suspicious"), JudgmentCategory::Suspicious);
    assert_eq!(JudgmentCategory::from_name("Dangerous"), JudgmentCategory::Dangerous);
    assert_eq!(JudgmentCategory::from_name("Unknown"), JudgmentCategory::Unknown);
    assert_eq!(JudgmentCategory::from_name("safe"), JudgmentCategory::Unknown);
    assert_eq!(JudgmentCategory::from_name(""), JudgmentCategory::Unknown);
}

#[test]
fn judgment_from_fields() {
    let now = Timestamp::new(9, 9);
    let j = Judgment::from_fields(Some("Dangerous".to_string()), Some(100), Some("why".to_string()), now);
    assert_eq!(j.category, JudgmentCategory::Dangerous);
    assert_eq!(j.confidence, 100);
    assert_eq!(j.reasoning, "why");
    assert_eq!(j.timestamp, now);
    let j = Judgment::from_fields(None, Some(256), None, now);
    assert_eq!(j.category, JudgmentCategory::Unknown);
    assert_eq!(j.confidence, 50);
    assert_eq!(Judgment::from_fields(None, Some(200), None, now).confidence, 50);
    assert_eq!(Judgment::from_fields(None, Some(u64::MAX), None, now).confidence, 50);
    assert_eq!(Judgment::from_fields(None, Some(99), None, now).confidence, 99);
    assert_eq!(Judgment::from_fields(None, None, None, now).confidence, 50);
    assert_eq!(j.reasoning, "No reasoning provided");
}

#[test]
fn cache_and_monitor_stay_within_their_bound() {
    let mut cache = JudgmentCache::new(3);
    for i in 0..20 {
        cache.store_at(format!("h{}", i % 7), safe("x"), Duration::hours(1), Timestamp::new(i, 0));
        assert!(cache.size() <= 3);
    }
    assert_eq!(cache.size(), 3);
}
