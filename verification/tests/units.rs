use rusty_bind::FramesPerSecond;
use rusty_bind::codec::render_decimal;
use rusty_bind::codec::render_frame_payload;
use rusty_bind::codec::render_grouped;
use rusty_bind::commands::Command;
use rusty_bind::commands::parse_command;
use rusty_bind::context::Context;
use rusty_bind::context::Task;
use rusty_bind::errors::ProtocolError;
use rusty_bind::errors::RuntimeError;
use rusty_bind::interface::Interface;
use rusty_bind::mqtt::MQTT;
use rusty_bind::mqtt::Message;
use rusty_bind::mqtt::mqtt_client_id;
use rusty_bind::registry::Registry;

#[test]
fn registry_insert_then_find() {
    let mut registry: Registry<u64> = Registry::new();
    assert!(registry.insert(7, 42).is_ok());
    assert_eq!(registry.find(7), Some(&42));
    registry.remove(7);
    assert_eq!(registry.find(7), None);
}

#[test]
fn registry_remove_unregistered_is_noop() {
    let mut registry: Registry<u64> = Registry::new();
    assert!(registry.insert(1, 10).is_ok());
    registry.remove(99);
    assert_eq!(registry.len(), 1);
    assert_eq!(registry.find(1), Some(&10));
}

#[test]
fn registry_rejects_duplicate_handle() {
    let mut registry: Registry<u64> = Registry::new();
    assert!(registry.insert(1, 10).is_ok());
    assert_eq!(registry.insert(1, 11), Err(11));
    assert_eq!(registry.find(1), Some(&10));
}

#[test]
fn registry_take_hands_instance_back() {
    let mut registry: Registry<u64> = Registry::new();
    assert!(registry.insert(3, 30).is_ok());
    assert!(registry.insert(4, 40).is_ok());
    assert_eq!(registry.take(3), Some(30));
    assert_eq!(registry.take(3), None);
    assert_eq!(registry.find(4), Some(&40));
}

#[test]
fn registry_find_mut_updates_one_entry() {
    let mut registry: Registry<u64> = Registry::new();
    assert!(registry.insert(1, 10).is_ok());
    assert!(registry.insert(2, 20).is_ok());
    if let Some(value) = registry.find_mut(2) {
        *value = 21;
    } else {
        panic!("handle 2 should be registered");
    }
    assert_eq!(registry.find(1), Some(&10));
    assert_eq!(registry.find(2), Some(&21));
    assert_eq!(registry.find_mut(9).is_none(), true);
}

#[test]
fn frames_per_second_reports_after_one_second() {
    let mut counter = FramesPerSecond::new(0);
    assert_eq!(counter.tick(400), None);
    assert_eq!(counter.tick(999), None);
    assert_eq!(counter.tick(1000), Some(3));
}

#[test]
fn frames_per_second_rate_uses_actual_window() {
    let mut counter = FramesPerSecond::new(0);
    for now in 1..=9u64 {
        assert_eq!(counter.tick(now * 100), None);
    }
    // tenth frame at 2000 ms: ten frames over two seconds
    assert_eq!(counter.tick(2000), Some(5));
    // the window restarts at the report
    assert_eq!(counter.tick(2500), None);
}

#[test]
fn frames_per_second_tolerates_backwards_clock() {
    let mut counter = FramesPerSecond::new(1000);
    assert_eq!(counter.tick(500), None);
}

#[test]
fn decimal_rendering_is_exact() {
    assert_eq!(render_decimal(0), b"0".to_vec());
    assert_eq!(render_decimal(7), b"7".to_vec());
    assert_eq!(render_decimal(1234567890), b"1234567890".to_vec());
    assert_eq!(render_decimal(u64::MAX), b"18446744073709551615".to_vec());
}

#[test]
fn grouped_rendering_inserts_thousands_separators() {
    assert_eq!(render_grouped(999), b"999".to_vec());
    assert_eq!(render_grouped(1000), b"1,000".to_vec());
    assert_eq!(render_grouped(1234567), b"1,234,567".to_vec());
    assert_eq!(render_grouped(1000000), b"1,000,000".to_vec());
}

#[test]
fn frame_payload_splices_counter_and_position() {
    let payload = render_frame_payload(
        7,
        &b"1.5".to_vec(),
        &b"2.25".to_vec(),
        &b"-3.0".to_vec(),
    );
    assert_eq!(payload, br#"{"frame":7,"position":[1.5,2.25,-3.0]}"#.to_vec());
}

#[test]
fn parse_shutdown_command() {
    let payload = br#"{"shutdown": true}"#.to_vec();
    assert_eq!(parse_command(&payload), Ok(Command::Shutdown(true)));
    let payload = br#"{"shutdown":false}"#.to_vec();
    assert_eq!(parse_command(&payload), Ok(Command::Shutdown(false)));
}

#[test]
fn parse_speed_test_command() {
    let payload = br#"  { "speed_test" : true }  "#.to_vec();
    assert_eq!(parse_command(&payload), Ok(Command::SpeedTest(true)));
}

#[test]
fn first_declared_schema_wins() {
    // both keys present: the shutdown schema is declared first
    let payload = br#"{"speed_test":true,"shutdown":false}"#.to_vec();
    assert_eq!(parse_command(&payload), Ok(Command::Shutdown(false)));
}

#[test]
fn malformed_payloads_are_protocol_errors() {
    let cases: Vec<&[u8]> = vec![
        b"",
        b"{}",
        br#"{"other":true}"#,
        br#"{"shutdown":1}"#,
        br#"{"shutdown":true"#,
        br#"{"shutdown":true}x"#,
        br#""shutdown""#,
    ];
    for case in cases {
        assert_eq!(
            parse_command(&case.to_vec()),
            Err(ProtocolError::MalformedCommand),
            "payload {:?} should be rejected",
            String::from_utf8_lossy(case)
        );
    }
}

#[test]
fn spawn_queues_without_running() {
    let mut context = Context::new();
    context.spawn_task(Task { steps: 1 });
    assert_eq!(context.pending_len(), 1);
    assert_eq!(context.completed_count(), 0);
    assert_eq!(context.spawned_count(), 1);
}

#[test]
fn poll_is_bounded_per_call() {
    let mut context = Context::new();
    context.spawn_task(Task { steps: 100 });
    // one poll may spend at most its fixed budget: the big task survives it
    context.poll();
    assert_eq!(context.pending_len(), 1);
    assert_eq!(context.completed_count(), 0);
    // a second poll finishes the remaining 36 steps
    context.poll();
    assert_eq!(context.pending_len(), 0);
    assert_eq!(context.completed_count(), 1);
}

#[test]
fn poll_completes_ready_tasks_in_order() {
    let mut context = Context::new();
    context.spawn_task(Task { steps: 30 });
    context.spawn_task(Task { steps: 30 });
    context.spawn_task(Task { steps: 30 });
    context.poll();
    // 64 steps: two tasks done, the third only advanced
    assert_eq!(context.completed_count(), 2);
    assert_eq!(context.pending_len(), 1);
    context.poll();
    assert_eq!(context.completed_count(), 3);
    assert_eq!(context.pending_len(), 0);
}

#[test]
fn block_on_async_runs_to_completion() {
    let mut context = Context::new();
    context.spawn_task(Task { steps: 500 });
    let steps = context.block_on_async(Task { steps: 7 });
    assert_eq!(steps, 7);
    // the queued task is untouched; only the awaited one completed
    assert_eq!(context.pending_len(), 1);
    assert_eq!(context.completed_count(), 1);
}

#[test]
fn shutdown_accounts_for_every_task() {
    let mut context = Context::new();
    context.spawn_task(Task { steps: 100 });
    context.spawn_task(Task { steps: 5 });
    let _ = context.block_on_async(Task { steps: 7 });
    context.poll();
    let spawned = context.spawned_count();
    let (completed, abandoned) = context.shutdown();
    assert_eq!(completed + abandoned, spawned);
}

#[test]
fn mailbox_publish_respects_capacity() {
    let mut mailbox = MQTT::new(2);
    assert!(mailbox.try_publish("t".to_string(), b"a".to_vec()).is_ok());
    assert!(mailbox.try_publish("t".to_string(), b"b".to_vec()).is_ok());
    assert_eq!(
        mailbox.try_publish("t".to_string(), b"c".to_vec()),
        Err(RuntimeError::PublishQueueFull)
    );
    let outgoing = mailbox.take_outgoing();
    assert_eq!(outgoing.len(), 2);
    assert_eq!(outgoing[0].payload, b"a".to_vec());
    // with the outbox drained there is room again
    assert!(mailbox.try_publish("t".to_string(), b"c".to_vec()).is_ok());
}

#[test]
fn mailbox_delivers_in_order() {
    let mut mailbox = MQTT::new(4);
    assert!(mailbox.try_recv().is_none());
    mailbox.deliver(Message { topic: "a".to_string(), payload: b"1".to_vec() });
    mailbox.deliver(Message { topic: "b".to_string(), payload: b"2".to_vec() });
    let first = mailbox.try_recv().expect("a message was delivered");
    assert_eq!(first.topic, "a");
    let second = mailbox.try_recv().expect("a second message was delivered");
    assert_eq!(second.payload, b"2".to_vec());
    assert!(mailbox.try_recv().is_none());
}

#[test]
fn interface_shutdown_request_is_idempotent() {
    let mut view = Interface::new(
        "model".to_string(),
        7,
        b"1.0".to_vec(),
        b"2.0".to_vec(),
        b"3.0".to_vec(),
        100,
    );
    assert_eq!(view.name(), "model");
    assert_eq!(view.frame(), 7);
    assert_eq!(view.now_millis(), 100);
    assert!(!view.shutdown_requested());
    view.request_shutdown();
    assert!(view.shutdown_requested());
    view.request_shutdown();
    assert!(view.shutdown_requested());
    let (x, y, z) = view.position();
    assert_eq!(x, &b"1.0".to_vec());
    assert_eq!(y, &b"2.0".to_vec());
    assert_eq!(z, &b"3.0".to_vec());
}

#[test]
fn client_ids_carry_the_prefix_and_differ() {
    let first = mqtt_client_id();
    let second = mqtt_client_id();
    assert_eq!(first.len(), 47);
    assert!(first.starts_with("rusty_bind-"));
    assert_eq!(second.len(), 47);
    assert!(second.starts_with("rusty_bind-"));
    assert_ne!(first, second);
}
