use monx::decimal::Decimal;
use monx::log_humanizer::{
    humanize_log_message, model_prompt, HumanizedLog, LogHumanizer, MODEL_PROMPT_HEAD,
};

fn confidence(h: &HumanizedLog) -> f64 {
    h.confidence.milli as f64 / 1000.0
}

#[test]
fn humanizer_has_four_rules_in_fixed_order() {
    let humanizer = LogHumanizer::new();
    let names: Vec<&str> = humanizer.patterns.iter().map(|p| p.name.as_str()).collect();
    assert_eq!(names, vec!["out_of_memory", "disk_full", "database_error", "connection_refused"]);
    assert_eq!(humanizer.patterns[3].regex, "(?i)connection.*(refused|failed|timeout)");
    assert_eq!(humanizer.patterns[0].severity, "CRITICAL");
    assert_eq!(humanizer.patterns[0].causes.len(), 3);
    assert_eq!(humanizer.patterns[0].fixes.len(), 4);
}

#[test]
fn connection_refused_message_matches_connection_rule() {
    let humanizer = LogHumanizer::new();
    let h = humanizer.humanize_log("Connection refused to db", None);
    assert_eq!(h.original_message, "Connection refused to db");
    assert_eq!(h.severity, "HIGH");
    assert_eq!(confidence(&h), 0.9);
    assert!(!h.suggested_fixes.is_empty());
    assert_eq!(
        h.human_explanation,
        "Service connection failed - the target service is unreachable"
    );
    assert_eq!(h.possible_causes.len(), 4);
    assert_eq!(h.suggested_fixes[0], "Check if target service is running");
}

#[test]
fn humanization_is_deterministic() {
    let humanizer = LogHumanizer::new();
    let first = humanizer.humanize_log("Connection refused to db", None);
    for _ in 0..20 {
        assert_eq!(humanizer.humanize_log("Connection refused to db", None), first);
        assert_eq!(LogHumanizer::new().humanize_log("Connection refused to db", None), first);
    }
}

#[test]
fn each_rule_matches_its_message() {
    let humanizer = LogHumanizer::new();
    let oom = humanizer.pattern_match("java.lang.OutOfMemoryError: Out of memory").unwrap();
    assert_eq!(oom.human_explanation, "Application ran out of available memory");
    assert_eq!(oom.severity, "CRITICAL");
    let disk = humanizer.pattern_match("write failed: No space left on device").unwrap();
    assert_eq!(disk.human_explanation, "Disk storage is full or nearly full");
    assert_eq!(disk.severity, "CRITICAL");
    let db = humanizer.pattern_match("postgres query timeout after 30s").unwrap();
    assert_eq!(db.human_explanation, "Database operation failed");
    assert_eq!(db.severity, "HIGH");
    let conn = humanizer.pattern_match("connection to upstream failed").unwrap();
    assert_eq!(conn.severity, "HIGH");
    assert!(humanizer.pattern_match("user logged in").is_none());
}

#[test]
fn earlier_rule_wins_where_two_match() {
    let humanizer = LogHumanizer::new();
    let h = humanizer.pattern_match("database connection failed").unwrap();
    assert_eq!(h.human_explanation, "Database operation failed");
    let h = humanizer.pattern_match("OOM while connection timeout").unwrap();
    assert_eq!(h.human_explanation, "Application ran out of available memory");
}

#[test]
fn verdicts_follow_the_table() {
    let humanizer = LogHumanizer::new();
    assert_eq!(
        humanizer.verdicts("database connection failed"),
        vec![false, false, true, true]
    );
    assert_eq!(humanizer.verdicts("nothing to see"), vec![false, false, false, false]);
    assert!(humanizer.needs_model("nothing to see"));
    assert!(!humanizer.needs_model("disk is full"));
}

#[test]
fn select_takes_first_marked_rule() {
    let humanizer = LogHumanizer::new();
    let h = humanizer.select("m", &vec![false, true, false, true]).unwrap();
    assert_eq!(h.human_explanation, "Disk storage is full or nearly full");
    assert_eq!(h.original_message, "m");
    assert!(humanizer.select("m", &vec![false, false, false, false]).is_none());
    assert!(humanizer.select("m", &vec![]).is_none());
    assert!(humanizer.select("m", &vec![false, false, false, false, true]).is_none());
}

#[test]
fn model_reply_is_read_where_no_rule_matches() {
    let humanizer = LogHumanizer::new();
    let answer = r#"{"human_explanation":"Cache warmed","severity":"WARN","possible_causes":["deploy",7,"restart"],"suggested_fixes":[]}"#;
    let body = serde_json::to_string(&serde_json::Value::Object({
        let mut m = serde_json::Map::new();
        m.insert("response".to_string(), serde_json::Value::String(answer.to_string()));
        m
    }))
    .unwrap();
    let h = humanizer.humanize_log("cache warm-up done", Some(&body));
    assert_eq!(h.original_message, "cache warm-up done");
    assert_eq!(h.human_explanation, "Cache warmed");
    assert_eq!(h.severity, "WARN");
    assert_eq!(h.possible_causes, vec!["deploy", "restart"]);
    assert!(h.suggested_fixes.is_empty());
    assert_eq!(confidence(&h), 0.8);
}

#[test]
fn model_reply_fields_default_individually() {
    let body = r#"{"response":"{\"severity\":\"HIGH\"}"}"#;
    let h = HumanizedLog::from_model_reply("m", body).unwrap();
    assert_eq!(h.human_explanation, "AI analysis completed");
    assert_eq!(h.severity, "HIGH");
    assert_eq!(h.possible_causes, vec!["Unknown cause"]);
    assert_eq!(h.suggested_fixes, vec!["Review logs for patterns"]);
    assert_eq!(h.confidence, Decimal::from_milli(800));
    let h = HumanizedLog::from_model_reply("m", r#"{"response":"[1,2]"}"#).unwrap();
    assert_eq!(h.severity, "INFO");
    assert_eq!(h.human_explanation, "AI analysis completed");
}

#[test]
fn rule_wins_over_model_reply() {
    let humanizer = LogHumanizer::new();
    let body = r#"{"response":"{\"severity\":\"INFO\"}"}"#;
    let h = humanizer.humanize_log("disk full on /var", Some(body));
    assert_eq!(h.severity, "CRITICAL");
    assert_eq!(confidence(&h), 0.9);
}

#[test]
fn unreadable_model_reply_gives_generic_explanation() {
    let humanizer = LogHumanizer::new();
    for body in [
        "",
        "not json",
        r#"{"response":42}"#,
        r#"{"other":"x"}"#,
        r#"{"response":"not json either"}"#,
        r#"["response"]"#,
    ] {
        assert!(HumanizedLog::from_model_reply("m", body).is_none(), "for {:?}", body);
        let h = humanizer.humanize_log("all quiet", Some(body));
        assert_eq!(h, HumanizedLog::generic_for("all quiet"));
    }
}

#[test]
fn generic_explanation_without_model() {
    let humanizer = LogHumanizer::new();
    let h = humanize_log_message(&humanizer, "all quiet", None);
    assert_eq!(h.original_message, "all quiet");
    assert_eq!(h.human_explanation, "Log entry detected - review for potential issues");
    assert_eq!(h.severity, "INFO");
    assert_eq!(h.possible_causes, vec!["Normal application behavior"]);
    assert_eq!(h.suggested_fixes, vec!["No action required unless part of larger pattern"]);
    assert_eq!(confidence(&h), 0.3);
}

#[test]
fn model_prompt_ends_with_message() {
    let p = model_prompt("disk at 91%");
    assert!(p.starts_with("Analyze this log message and provide a JSON response"));
    assert_eq!(p, format!("{}{}", MODEL_PROMPT_HEAD, "disk at 91%"));
    assert!(p.ends_with("\n\ndisk at 91%"));
}
