use rusty_bind::adapter::Bridge;
use rusty_bind::adapter::TickOutcome;
use rusty_bind::context::Task;
use rusty_bind::errors::ConstructionError;
use rusty_bind::errors::RuntimeError;
use rusty_bind::interface::Interface;
use rusty_bind::mqtt::Message;
use rusty_bind::plugin::RustPlugin;

fn host_view(frame: u64, now_millis: u64) -> Interface {
    Interface::new(
        "model".to_string(),
        frame,
        b"1.5".to_vec(),
        b"2.25".to_vec(),
        b"-3.0".to_vec(),
        now_millis,
    )
}

fn command(payload: &[u8]) -> Message {
    Message { topic: "rusty_bind/command".to_string(), payload: payload.to_vec() }
}

#[test]
fn lifecycle_reflects_host_state_in_the_report() {
    let mut bridge: Bridge<RustPlugin> = Bridge::new();
    assert!(bridge.plugin_constructor(1, Task { steps: 2 }, Ok(RustPlugin::new(0))).is_ok());
    assert!(bridge.contains(1));

    let mut view = host_view(7, 100);
    assert_eq!(bridge.plugin_on_run(1, &mut view), TickOutcome::Completed);

    let plugin = bridge.find_mut(1).expect("the instance is registered");
    let outgoing = plugin.take_outgoing();
    assert_eq!(outgoing.len(), 1);
    assert_eq!(outgoing[0].topic, "rusty_bind/frame");
    assert_eq!(
        outgoing[0].payload,
        br#"{"frame":7,"position":[1.5,2.25,-3.0]}"#.to_vec()
    );

    bridge.plugin_destructor(1);
    assert!(!bridge.contains(1));
    let mut view = host_view(7, 200);
    assert_eq!(bridge.plugin_on_run(1, &mut view), TickOutcome::NotRegistered);
    assert!(!view.shutdown_requested());
}

#[test]
fn failed_construction_registers_nothing() {
    let mut bridge: Bridge<RustPlugin> = Bridge::new();
    let outcome = bridge.plugin_constructor(
        1,
        Task { steps: 2 },
        Err(ConstructionError::ConnectionFailed),
    );
    assert_eq!(outcome, Err(ConstructionError::ConnectionFailed));
    assert!(!bridge.contains(1));
    assert!(bridge.find(1).is_none());
}

#[test]
fn duplicate_handle_is_rejected_and_instance_kept() {
    let mut bridge: Bridge<RustPlugin> = Bridge::new();
    assert!(bridge.plugin_constructor(1, Task { steps: 1 }, Ok(RustPlugin::new(0))).is_ok());
    let again = bridge.plugin_constructor(1, Task { steps: 1 }, Ok(RustPlugin::new(0)));
    assert_eq!(again, Err(ConstructionError::HandleInUse));
    assert_eq!(bridge.len(), 1);
}

#[test]
fn tick_on_unregistered_handle_is_silent() {
    let mut bridge: Bridge<RustPlugin> = Bridge::new();
    let mut view = host_view(1, 10);
    assert_eq!(bridge.plugin_on_run(42, &mut view), TickOutcome::NotRegistered);
    assert_eq!(bridge.len(), 0);
    assert!(!view.shutdown_requested());
}

#[test]
fn sequential_ticks_observe_incrementing_frames() {
    let mut bridge: Bridge<RustPlugin> = Bridge::new();
    assert!(bridge.plugin_constructor(1, Task { steps: 1 }, Ok(RustPlugin::new(0))).is_ok());

    let mut view = host_view(5, 50);
    assert_eq!(bridge.plugin_on_run(1, &mut view), TickOutcome::Completed);
    let first = bridge.find_mut(1).expect("registered").take_outgoing();
    assert_eq!(first[0].payload, br#"{"frame":5,"position":[1.5,2.25,-3.0]}"#.to_vec());

    let mut view = host_view(6, 60);
    assert_eq!(bridge.plugin_on_run(1, &mut view), TickOutcome::Completed);
    let second = bridge.find_mut(1).expect("registered").take_outgoing();
    assert_eq!(second[0].payload, br#"{"frame":6,"position":[1.5,2.25,-3.0]}"#.to_vec());
}

#[test]
fn instances_never_share_state() {
    let mut bridge: Bridge<RustPlugin> = Bridge::new();
    assert!(bridge.plugin_constructor(1, Task { steps: 1 }, Ok(RustPlugin::new(0))).is_ok());
    assert!(bridge.plugin_constructor(2, Task { steps: 1 }, Ok(RustPlugin::new(0))).is_ok());

    // switch reporting off for the first instance only
    bridge
        .find_mut(1)
        .expect("registered")
        .deliver(command(br#"{"speed_test":true}"#));

    let mut view = host_view(3, 30);
    assert_eq!(bridge.plugin_on_run(1, &mut view), TickOutcome::Completed);
    assert_eq!(bridge.plugin_on_run(2, &mut view), TickOutcome::Completed);

    let silenced = bridge.find_mut(1).expect("registered").take_outgoing();
    assert!(silenced.is_empty());
    let reporting = bridge.find_mut(2).expect("registered").take_outgoing();
    assert_eq!(reporting.len(), 1);
}

#[test]
fn shutdown_command_reaches_the_interface() {
    let mut bridge: Bridge<RustPlugin> = Bridge::new();
    assert!(bridge.plugin_constructor(1, Task { steps: 1 }, Ok(RustPlugin::new(0))).is_ok());
    bridge
        .find_mut(1)
        .expect("registered")
        .deliver(command(br#"{"shutdown": true}"#));

    let mut view = host_view(9, 90);
    assert_eq!(bridge.plugin_on_run(1, &mut view), TickOutcome::Completed);
    assert!(view.shutdown_requested());
}

#[test]
fn malformed_message_is_dropped_and_the_tick_goes_on() {
    let mut bridge: Bridge<RustPlugin> = Bridge::new();
    assert!(bridge.plugin_constructor(1, Task { steps: 1 }, Ok(RustPlugin::new(0))).is_ok());
    let plugin = bridge.find_mut(1).expect("registered");
    plugin.deliver(command(b"this is not a command"));
    plugin.deliver(command(br#"{"shutdown":true}"#));

    let mut view = host_view(4, 40);
    // the malformed message is dropped; the later message still acts
    assert_eq!(bridge.plugin_on_run(1, &mut view), TickOutcome::Completed);
    assert!(view.shutdown_requested());
    let outgoing = bridge.find_mut(1).expect("registered").take_outgoing();
    assert_eq!(outgoing.len(), 1);
}

#[test]
fn last_speed_test_command_wins() {
    let mut bridge: Bridge<RustPlugin> = Bridge::new();
    assert!(bridge.plugin_constructor(1, Task { steps: 1 }, Ok(RustPlugin::new(0))).is_ok());
    let plugin = bridge.find_mut(1).expect("registered");
    plugin.deliver(command(br#"{"speed_test":true}"#));
    plugin.deliver(command(br#"{"speed_test":false}"#));

    let mut view = host_view(2, 20);
    assert_eq!(bridge.plugin_on_run(1, &mut view), TickOutcome::Completed);
    // reporting stayed on: the last command turned the speed test off again
    let outgoing = bridge.find_mut(1).expect("registered").take_outgoing();
    assert_eq!(outgoing.len(), 1);
}

#[test]
fn full_outbox_fails_the_tick_but_keeps_the_instance() {
    let mut bridge: Bridge<RustPlugin> = Bridge::new();
    assert!(bridge.plugin_constructor(1, Task { steps: 1 }, Ok(RustPlugin::new(0))).is_ok());

    // the outbox holds ten reports; the eleventh tick cannot queue one
    for frame in 0..10u64 {
        let mut view = host_view(frame, frame);
        assert_eq!(bridge.plugin_on_run(1, &mut view), TickOutcome::Completed);
    }
    let mut view = host_view(10, 10);
    assert_eq!(
        bridge.plugin_on_run(1, &mut view),
        TickOutcome::Failed(RuntimeError::PublishQueueFull)
    );
    assert!(bridge.contains(1));

    // draining the outbox lets the next tick succeed again
    let drained = bridge.find_mut(1).expect("registered").take_outgoing();
    assert_eq!(drained.len(), 10);
    let mut view = host_view(11, 11);
    assert_eq!(bridge.plugin_on_run(1, &mut view), TickOutcome::Completed);
}

#[test]
fn ticks_never_block_on_background_work() {
    let mut bridge: Bridge<RustPlugin> = Bridge::new();
    assert!(bridge.plugin_constructor(1, Task { steps: 3 }, Ok(RustPlugin::new(0))).is_ok());
    // the construction setup ran to completion while blocking was allowed
    assert_eq!(bridge.context().completed_count(), 1);

    // each reporting tick queues one short task and the end-of-tick poll,
    // bounded by its budget, completes it
    let mut view = host_view(1, 1);
    assert_eq!(bridge.plugin_on_run(1, &mut view), TickOutcome::Completed);
    assert_eq!(bridge.context().pending_len(), 0);
    assert_eq!(bridge.context().completed_count(), 2);
}

#[test]
fn bridge_shutdown_accounts_for_every_task() {
    let mut bridge: Bridge<RustPlugin> = Bridge::new();
    assert!(bridge.plugin_constructor(1, Task { steps: 5 }, Ok(RustPlugin::new(0))).is_ok());
    for frame in 0..3u64 {
        let mut view = host_view(frame, frame);
        assert_eq!(bridge.plugin_on_run(1, &mut view), TickOutcome::Completed);
    }
    let spawned = bridge.context().spawned_count();
    let (completed, abandoned) = bridge.shutdown();
    assert_eq!(completed + abandoned, spawned);
}

#[test]
fn reserved_hooks_do_nothing() {
    let mut bridge: Bridge<RustPlugin> = Bridge::new();
    assert!(bridge.plugin_constructor(1, Task { steps: 1 }, Ok(RustPlugin::new(0))).is_ok());
    bridge.plugin_on_initialize(1);
    bridge.plugin_on_reset(1);
    assert_eq!(bridge.len(), 1);
}
