use dende_rs::notifiers::{
    format_match_message, parse_sink, parse_sinks, ConsoleSink, DeliveryAction, Mailbox,
    NotifyEvent, SinkDelivery, SinkSpec,
};

#[test]
fn telegram_entry_needs_token_and_numeric_id() {
    let token = Some(String::from("SECRET-REDACTED"));
    let s = parse_sink("tg:12345", &token);
    match s {
        Some(SinkSpec::Telegram { token: t, chat_id }) => {
            assert_eq!(t, "SECRET-REDACTED");
            assert_eq!(chat_id, 12345);
        },
        _ => panic!("expected a chat sink"),
    }
    assert!(parse_sink("tg:12345", &None).is_none());
    assert!(parse_sink("tg:notanumber", &token).is_none());
    assert!(parse_sink("tg:", &token).is_none());
}

#[test]
fn negative_chat_ids_are_accepted() {
    let token = Some(String::from("t"));
    match parse_sink("tg:-100123", &token) {
        Some(SinkSpec::Telegram { chat_id, .. }) => assert_eq!(chat_id, -100123),
        _ => panic!("expected a chat sink"),
    }
}

#[test]
fn console_entry_keeps_its_tag() {
    match parse_sink("console:ops-channel", &None) {
        Some(SinkSpec::Console { tag }) => assert_eq!(tag, "ops-channel"),
        _ => panic!("expected a console sink"),
    }
}

#[test]
fn entries_are_trimmed_before_parsing() {
    match parse_sink("  console:x \t", &None) {
        Some(SinkSpec::Console { tag }) => assert_eq!(tag, "x"),
        _ => panic!("expected a console sink"),
    }
}

#[test]
fn unknown_and_malformed_entries_are_skipped() {
    assert!(parse_sink("email:a@b.c", &None).is_none());
    assert!(parse_sink("sms:555", &None).is_none());
    assert!(parse_sink("plaintag", &None).is_none());
    assert!(parse_sink("webhook:http://x", &None).is_none());
}

#[test]
fn sink_list_keeps_order_and_skips_rejects() {
    let token = Some(String::from("tok"));
    let to = vec![
        String::from("console:first"),
        String::from("email:skipped"),
        String::from("tg:7"),
        String::from("tg:bad"),
        String::from("console:last"),
    ];
    let sinks = parse_sinks(&to, &token);
    assert_eq!(sinks.len(), 3);
    assert!(matches!(&sinks[0], SinkSpec::Console { tag } if tag == "first"));
    assert!(matches!(&sinks[1], SinkSpec::Telegram { chat_id: 7, .. }));
    assert!(matches!(&sinks[2], SinkSpec::Console { tag } if tag == "last"));
}

#[test]
fn third_attempt_success_delivers_exactly_once() {
    let mut d = SinkDelivery::new();
    assert_eq!(d.record_attempt(false), DeliveryAction::RetryAfter(400));
    assert_eq!(d.record_attempt(false), DeliveryAction::RetryAfter(800));
    assert_eq!(d.record_attempt(true), DeliveryAction::Delivered);
    assert!(d.done);
    assert_eq!(d.attempts, 3);
}

#[test]
fn three_failures_drop_the_message_once() {
    let mut d = SinkDelivery::new();
    assert_eq!(d.record_attempt(false), DeliveryAction::RetryAfter(400));
    assert_eq!(d.record_attempt(false), DeliveryAction::RetryAfter(800));
    assert_eq!(d.record_attempt(false), DeliveryAction::Dropped);
    assert!(d.done);
}

#[test]
fn backoff_doubles_and_caps_at_five_seconds() {
    let mut d = SinkDelivery::new();
    d.record_attempt(false);
    assert_eq!(d.delay_ms, 800);
    d.record_attempt(false);
    assert_eq!(d.delay_ms, 1600);
    let mut e = SinkDelivery { attempts: 0, delay_ms: 4000, done: false };
    e.record_attempt(false);
    assert_eq!(e.delay_ms, 5000);
}

#[test]
fn mailbox_preserves_arrival_order() {
    let mut mb = Mailbox::new();
    mb.enqueue(NotifyEvent { msg: String::from("one") });
    mb.enqueue(NotifyEvent { msg: String::from("two") });
    mb.enqueue(NotifyEvent { msg: String::from("three") });
    assert_eq!(mb.dequeue().unwrap().msg, "one");
    assert_eq!(mb.dequeue().unwrap().msg, "two");
    assert_eq!(mb.dequeue().unwrap().msg, "three");
    assert!(mb.dequeue().is_none());
}

#[test]
fn match_message_text_is_exact() {
    let m = format_match_message("2024/01/02 03:04:05", "/var/log/app.log", 17, "ERROR disk full");
    assert_eq!(
        m,
        "!dende-rs::log-watcher::matched!\n\nDate: 2024/01/02 03:04:05\nFilename and line: /var/log/app.log:17\nContent matched:\n\nERROR disk full"
    );
}

#[test]
fn console_sink_keeps_its_tag_and_accepts_a_message() {
    let c = ConsoleSink::new(String::from("job-0"));
    assert_eq!(c.tag, "job-0");
    assert!(c.send("hello"));
}
