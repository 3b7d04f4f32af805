use monx::events::LogEvent;
use monx::ml::AnomalyEngine;
use monx::patterns::PatternTable;

fn cs(s: &str) -> Vec<char> {
    s.chars().collect()
}

fn event(message: &str) -> LogEvent {
    LogEvent {
        timestamp: "t".to_string(),
        level: "INFO".to_string(),
        message: message.to_string(),
        service: "s".to_string(),
        agent_id: "a".to_string(),
        trace_id: None,
        source: "agent".to_string(),
    }
}

#[test]
fn table_counts_up_and_down() {
    let mut table = PatternTable::new();
    assert_eq!(table.get(&cs("a")), 0);
    table.increment(&cs("a"));
    table.increment(&cs("b"));
    table.increment(&cs("a"));
    assert_eq!(table.get(&cs("a")), 2);
    assert_eq!(table.get(&cs("b")), 1);
    assert_eq!(table.get(&cs("c")), 0);
    table.decrement(&cs("a"));
    table.decrement(&cs("b"));
    table.decrement(&cs("c"));
    assert_eq!(table.get(&cs("a")), 1);
    assert_eq!(table.get(&cs("b")), 0);
    table.decrement(&cs("b"));
    table.decrement(&cs("a"));
    table.decrement(&cs("a"));
    assert_eq!(table.get(&cs("a")), 0);
}

#[test]
fn pattern_counts_follow_the_retained_buffer() {
    let mut engine = AnomalyEngine::new();
    assert_eq!(engine.pattern_count("job 1 done"), 0);
    for i in 0..600 {
        engine.analyze_event(&event(&format!("job {} done", i)));
    }
    for _ in 0..400 {
        engine.analyze_event(&event("heartbeat"));
    }
    assert_eq!(engine.events().len(), 1000);
    assert_eq!(engine.pattern_count("job 77 done"), 600);
    assert_eq!(engine.pattern_count("job <NUM> done"), 600);
    assert_eq!(engine.pattern_count("job done"), 0);
    assert_eq!(engine.pattern_count("heartbeat"), 400);
    for _ in 0..250 {
        engine.analyze_event(&event("heartbeat"));
    }
    assert_eq!(engine.events().len(), 1000);
    assert_eq!(engine.pattern_count("job 1 done"), 350);
    assert_eq!(engine.pattern_count("heartbeat"), 650);
    for _ in 0..1000 {
        engine.analyze_event(&event("mail to ops@example.com"));
    }
    assert_eq!(engine.pattern_count("job 1 done"), 0);
    assert_eq!(engine.pattern_count("heartbeat"), 0);
    assert_eq!(engine.pattern_count("mail to x@y"), 1000);
}

#[test]
fn pattern_counts_agree_with_a_recount() {
    let mut engine = AnomalyEngine::new();
    let messages = ["a 1", "b", "c /tmp/x", "a 2", "b", "d", "a x"];
    for round in 0..400 {
        engine.analyze_event(&event(messages[(round * 5 + round / 7) % messages.len()]));
    }
    for m in messages {
        let key = monx::ml::extract_log_pattern(m);
        let recount = engine
            .events()
            .iter()
            .filter(|e| monx::ml::extract_log_pattern(&e.message) == key)
            .count();
        assert_eq!(engine.pattern_count(m), recount, "for {:?}", m);
    }
}
