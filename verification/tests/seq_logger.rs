use serde_json::Value;

use aviabot::seq_logger::{
    batch_body, events_url, join_lines, request_headers, BatchStep, SeqBatch, SeqEvent, BATCH_SIZE,
    FLUSH_INTERVAL_MS,
};

fn event(n: i32) -> SeqEvent {
    SeqEvent::new("Event {n}", "Information").with_property("n", Value::from(n))
}

fn number(event: &SeqEvent) -> i64 {
    event.properties["n"].as_i64().unwrap()
}

#[test]
fn event_starts_without_properties() {
    let event = SeqEvent::new("Hello {name}", "Debug");
    assert_eq!(event.message_template, "Hello {name}");
    assert_eq!(event.level, "Debug");
    assert!(event.properties.is_empty());
}

#[test]
fn later_property_replaces_an_earlier_one() {
    let event = SeqEvent::new("t", "Debug")
        .with_property("a", Value::from(1))
        .with_property("b", Value::from("x"))
        .with_property("a", Value::from(2));
    assert_eq!(event.properties.len(), 2);
    assert_eq!(event.properties["a"], Value::from(2));
    assert_eq!(event.properties["b"], Value::from("x"));
    let copy = event.clone();
    assert_eq!(copy.properties, event.properties);
    assert_eq!(copy.message_template, "t");
}

#[test]
fn text_holds_time_template_level_and_application() {
    let event = SeqEvent::new("Hi \"there\"", "Warning").with_property("n", Value::from(7));
    let text = event.text_at("2024-01-02T03:04:05.678Z", "AviaBot");
    assert_eq!(
        text,
        "{\"@l\":\"Warning\",\"@mt\":\"Hi \\\"there\\\"\",\"@t\":\"2024-01-02T03:04:05.678Z\",\
         \"Application\":\"AviaBot\",\"n\":7}"
    );
}

#[test]
fn property_prevails_over_a_base_member() {
    let event = SeqEvent::new("t", "Debug")
        .with_property("@l", Value::from("Fatal"))
        .with_property("Application", Value::from("other"));
    let text = event.text_at("now", "AviaBot");
    let parsed: Value = serde_json::from_str(&text).unwrap();
    assert_eq!(parsed["@l"], Value::from("Fatal"));
    assert_eq!(parsed["Application"], Value::from("other"));
    assert_eq!(parsed["@t"], Value::from("now"));
    assert_eq!(parsed["@mt"], Value::from("t"));
    assert_eq!(parsed.as_object().unwrap().len(), 4);
}

#[test]
fn lines_end_in_a_line_break() {
    assert_eq!(join_lines(&Vec::new()), "");
    assert_eq!(join_lines(&vec!["a".to_string(), "".to_string(), "b".to_string()]), "a\n\nb\n");
}

#[test]
fn body_holds_a_line_for_each_event() {
    let body = batch_body(&vec![event(1), event(2), event(3)], "AviaBot");
    assert!(body.ends_with('\n'));
    let lines: Vec<&str> = body.lines().collect();
    assert_eq!(lines.len(), 3);
    for (i, line) in lines.iter().enumerate() {
        let parsed: Value = serde_json::from_str(line).unwrap();
        assert_eq!(parsed["n"], Value::from(i as i64 + 1));
        assert_eq!(parsed["@mt"], Value::from("Event {n}"));
        assert_eq!(parsed["@l"], Value::from("Information"));
        assert_eq!(parsed["Application"], Value::from("AviaBot"));
        let time = parsed["@t"].as_str().unwrap();
        assert_eq!(time.len(), 24);
        assert!(time.ends_with('Z'));
        assert_eq!(&time[10..11], "T");
        assert_eq!(&time[19..20], ".");
        for i in [4, 7] {
            assert_eq!(&time[i..i + 1], "-");
        }
        for i in [13, 16] {
            assert_eq!(&time[i..i + 1], ":");
        }
        assert_eq!(time.chars().filter(|c| c.is_ascii_digit()).count(), 17);
    }
    assert_eq!(batch_body(&Vec::new(), "AviaBot"), "");
}

#[test]
fn events_go_to_the_raw_endpoint() {
    let url = "http://localhost:5341/api/events/raw?clef";
    assert_eq!(events_url("http://localhost:5341"), url);
    assert_eq!(events_url("http://localhost:5341/"), url);
    assert_eq!(events_url("http://localhost:5341//"), url);
    assert_eq!(events_url(""), "/api/events/raw?clef");
}

#[test]
fn key_is_sent_where_one_is_configured() {
    let clef = ("Content-Type", "application/vnd.serilog.clef".to_string());
    assert_eq!(request_headers(&None), vec![clef.clone()]);
    assert_eq!(
        request_headers(&Some("k".to_string())),
        vec![clef, ("X-Seq-ApiKey", "k".to_string())]
    );
}

#[test]
fn full_batch_is_sent_at_once() {
    let mut batch = SeqBatch::new();
    for n in 1..BATCH_SIZE as i32 {
        assert!(batch.step(BatchStep::Logged(event(n))).is_none());
    }
    let sent = batch.step(BatchStep::Logged(event(100))).unwrap();
    assert_eq!(sent.len(), 100);
    for (i, event) in sent.iter().enumerate() {
        assert_eq!(number(event), i as i64 + 1);
    }
    assert!(batch.step(BatchStep::Tick).is_none());
}

#[test]
fn tick_sends_what_waits() {
    let mut batch = SeqBatch::new();
    assert!(batch.step(BatchStep::Tick).is_none());
    assert!(batch.step(BatchStep::Logged(event(1))).is_none());
    assert!(batch.step(BatchStep::Logged(event(2))).is_none());
    let sent = batch.step(BatchStep::Tick).unwrap();
    assert_eq!(sent.iter().map(number).collect::<Vec<i64>>(), vec![1, 2]);
    assert!(batch.step(BatchStep::Tick).is_none());
}

#[test]
fn no_event_is_lost_over_many_steps() {
    let mut batch = SeqBatch::new();
    let mut sent: Vec<i64> = Vec::new();
    for n in 0..1000 {
        let mut steps = vec![BatchStep::Logged(event(n))];
        if n % 337 == 0 {
            steps.push(BatchStep::Tick);
        }
        for step in steps {
            if let Some(events) = batch.step(step) {
                assert!(events.len() <= BATCH_SIZE);
                sent.extend(events.iter().map(number));
            }
        }
    }
    if let Some(events) = batch.step(BatchStep::Tick) {
        sent.extend(events.iter().map(number));
    }
    assert_eq!(sent, (0..1000).collect::<Vec<i64>>());
}

#[test]
fn events_that_wait_are_sent_once_a_second() {
    assert_eq!(FLUSH_INTERVAL_MS, 1000);
}
