//! The plugin capability and the bundled plugin.
//!
//! Every instance the registry owns implements [`Plugin`]: one `on_frame`
//! call per host tick, handed the execution context and the per-call
//! interface view.  A frame call may read the snapshot, queue asynchronous
//! work, and request shutdown — and nothing else: in particular it never
//! advances queued work, so it can never stall the host's tick.  An error
//! returned from a frame skips the rest of that tick's work for the
//! instance but keeps the instance alive.
//!
//! [`RustPlugin`] is the bundled instance: it counts frames, interprets
//! inbound bus commands (first schema match wins; a malformed message is
//! dropped and the tick goes on), and, unless a speed test switched
//! reporting off, queues one frame report and one short background task per
//! tick.

use vstd::prelude::*;
use vstd::string::StringExecFns;

use crate::codec::spec_frame_payload;
use crate::codec::render_frame_payload;
use crate::commands::Command;
use crate::commands::parse_command;
use crate::commands::spec_command;
use crate::context::Context;
use crate::context::Task;
use crate::errors::RuntimeError;
use crate::frames::FramesPerSecond;
use crate::interface::Interface;
use crate::mqtt::MQTT;
use crate::mqtt::Message;

verus! {

/// The bound on the bundled plugin's outbound queue, mirroring the
/// transport client's bounded request queue.
pub const OUTBOX_CAPACITY: usize = 10;

/// The cost, in cooperative steps, of the short background task the
/// bundled plugin queues each reporting tick.
pub const BACKGROUND_TASK_STEPS: u64 = 4;

/// The capability every plugin instance implements.
///
/// An instance is constructed, becomes active the instant its registry
/// insert succeeds, stays active across any number of frames, and is
/// destroyed — terminally — only by registry removal.
///
/// The three spec functions let each implementation publish its own
/// invariant, per-call precondition and exact per-call behaviour, while the
/// clauses on `on_frame` itself bind every implementation alike: a frame
/// call preserves the context's accounting, only appends to the task queue
/// (it never runs queued work, so it never blocks the tick), leaves the
/// host snapshot untouched, and never revokes a shutdown request.
pub trait Plugin: Sized {
    /// The implementation's invariant, established at construction and
    /// preserved by every frame.
    spec fn inv(&self) -> bool;

    /// What the implementation needs of the context and view on entry.
    spec fn frame_req(&self, context: Context, interface: Interface) -> bool;

    /// The implementation's exact frame behaviour, relating the states
    /// before and after one call.
    spec fn frame_ens(
        &self,
        post: Self,
        pre_context: Context,
        post_context: Context,
        pre_interface: Interface,
        post_interface: Interface,
        outcome: Result<(), RuntimeError>,
    ) -> bool;

    /// One frame of work.
    fn on_frame(&mut self, context: &mut Context, interface: &mut Interface) -> (outcome: Result<
        (),
        RuntimeError,
    >)
        requires
            old(self).inv(),
            old(context).wf(),
            old(self).frame_req(*old(context), *old(interface)),
        ensures
            final(self).inv(),
            final(context).wf(),
            old(context).spec_tasks().is_prefix_of(final(context).spec_tasks()),
            final(context).spec_completed() == old(context).spec_completed(),
            final(interface).same_snapshot(*old(interface)),
            old(interface).spec_shutdown_requested()
                ==> final(interface).spec_shutdown_requested(),
            old(self).frame_ens(
                *final(self),
                *old(context),
                *final(context),
                *old(interface),
                *final(interface),
                outcome,
            ),
    ;
}

/// The topic the bundled plugin publishes frame reports under.
pub open spec fn spec_frame_topic() -> Seq<char> {
    "rusty_bind/frame"@
}

/// The topic the bundled plugin subscribes to for commands.
pub open spec fn spec_command_topic() -> Seq<char> {
    "rusty_bind/command"@
}

/// The reporting switch after a batch of inbound messages is interpreted in
/// order: the last well-formed `speed_test` command wins; everything else
/// leaves the switch alone.
pub open spec fn spec_speedtest_after(inbox: Seq<Message>, initial: bool) -> bool
    decreases inbox.len(),
{
    if inbox.len() == 0 {
        initial
    } else {
        let after_first = match spec_command(inbox[0].payload@) {
            Some(Command::SpeedTest(value)) => value,
            _ => initial,
        };
        spec_speedtest_after(inbox.drop_first(), after_first)
    }
}

/// Whether any message in the batch is a well-formed shutdown request.
pub open spec fn spec_any_shutdown(inbox: Seq<Message>) -> bool
    decreases inbox.len(),
{
    if inbox.len() == 0 {
        false
    } else {
        spec_command(inbox[0].payload@) == Some(Command::Shutdown(true)) || spec_any_shutdown(
            inbox.drop_first(),
        )
    }
}

/// The bundled plugin instance.
pub struct RustPlugin {
    mqtt: MQTT,
    speedtest: bool,
    fps: FramesPerSecond,
    last_rate: Option<u64>,
}

impl RustPlugin {
    /// The plugin's mailbox.
    pub closed spec fn spec_mqtt(self) -> MQTT {
        self.mqtt
    }

    /// Whether a speed test has switched per-tick reporting off.
    pub closed spec fn spec_speedtest(self) -> bool {
        self.speedtest
    }

    /// The frame-rate counter.
    pub closed spec fn spec_fps(self) -> FramesPerSecond {
        self.fps
    }

    /// The rate the latest frame reported, if its tick closed a window.
    pub closed spec fn spec_last_rate(self) -> Option<u64> {
        self.last_rate
    }

    /// A fresh instance: an empty bounded mailbox already subscribed to the
    /// command topic, reporting on, and a frame-rate window opening at
    /// `now_millis`.
    pub fn new(now_millis: u64) -> (plugin: RustPlugin)
        ensures
            plugin.inv(),
            plugin.spec_mqtt().spec_inbox().len() == 0,
            plugin.spec_mqtt().spec_outbox().len() == 0,
            plugin.spec_mqtt().spec_capacity() == OUTBOX_CAPACITY,
            plugin.spec_mqtt().spec_subscriptions().len() == 1,
            plugin.spec_mqtt().spec_subscriptions()[0]@ == spec_command_topic(),
            !plugin.spec_speedtest(),
            plugin.spec_fps().spec_count() == 0,
            plugin.spec_fps().spec_window_start() == now_millis,
            plugin.spec_last_rate() is None,
    {
        let mut mqtt = MQTT::new(OUTBOX_CAPACITY);
        mqtt.subscribe(String::from_str("rusty_bind/command"));
        RustPlugin {
            mqtt,
            speedtest: false,
            fps: FramesPerSecond::new(now_millis),
            last_rate: None,
        }
    }

    /// The transport delivers one inbound bus message.
    pub fn deliver(&mut self, message: Message)
        ensures
            final(self).spec_mqtt().spec_inbox() == old(self).spec_mqtt().spec_inbox().push(
                message,
            ),
            final(self).spec_mqtt().spec_outbox() == old(self).spec_mqtt().spec_outbox(),
            final(self).spec_mqtt().spec_subscriptions() == old(
                self,
            ).spec_mqtt().spec_subscriptions(),
            final(self).spec_mqtt().spec_capacity() == old(self).spec_mqtt().spec_capacity(),
            final(self).spec_speedtest() == old(self).spec_speedtest(),
            final(self).spec_fps() == old(self).spec_fps(),
            final(self).spec_last_rate() == old(self).spec_last_rate(),
    {
        self.mqtt.deliver(message);
    }

    /// Hand the queued outbound messages to the transport.
    pub fn take_outgoing(&mut self) -> (outgoing: Vec<Message>)
        ensures
            outgoing@ == old(self).spec_mqtt().spec_outbox(),
            final(self).spec_mqtt().spec_outbox().len() == 0,
            final(self).spec_mqtt().spec_inbox() == old(self).spec_mqtt().spec_inbox(),
            final(self).spec_mqtt().spec_subscriptions() == old(
                self,
            ).spec_mqtt().spec_subscriptions(),
            final(self).spec_mqtt().spec_capacity() == old(self).spec_mqtt().spec_capacity(),
            final(self).spec_speedtest() == old(self).spec_speedtest(),
            final(self).spec_fps() == old(self).spec_fps(),
            final(self).spec_last_rate() == old(self).spec_last_rate(),
    {
        self.mqtt.take_outgoing()
    }

    /// The rate reported by the latest frame, if its tick closed a
    /// reporting window.
    pub fn last_rate(&self) -> (rate: Option<u64>)
        ensures
            rate == self.spec_last_rate(),
    {
        self.last_rate
    }

    /// Whether a speed test has switched per-tick reporting off.
    pub fn speedtest(&self) -> (on: bool)
        ensures
            on == self.spec_speedtest(),
    {
        self.speedtest
    }
}

/// The bundled plugin's exact frame behaviour.
///
/// One frame, in order: count the frame (closing a reporting window yields
/// the rate); interpret every inbound message in arrival order — the first
/// matching schema wins per message, a well-formed `shutdown(true)`
/// requests shutdown, the last well-formed `speed_test` sets the reporting
/// switch, malformed messages are dropped; then, unless reporting is off,
/// queue one frame report carrying the snapshot's frame counter and
/// position, and one short background task.  A full outbound queue is the
/// one per-tick failure: the report is dropped and the frame ends with
/// [`RuntimeError::PublishQueueFull`], the instance staying alive.
pub open spec fn rust_plugin_frame_ens(
    pre: RustPlugin,
    post: RustPlugin,
    pre_context: Context,
    post_context: Context,
    pre_interface: Interface,
    post_interface: Interface,
    outcome: Result<(), RuntimeError>,
) -> bool {
    let inbox = pre.spec_mqtt().spec_inbox();
    let reporting_off = spec_speedtest_after(inbox, pre.spec_speedtest());
    let fps0 = pre.spec_fps();
    let now = pre_interface.spec_now_millis();
    &&& post.spec_speedtest() == reporting_off
    &&& post.spec_mqtt().spec_inbox().len() == 0
    &&& post.spec_mqtt().spec_subscriptions() == pre.spec_mqtt().spec_subscriptions()
    &&& post.spec_mqtt().spec_capacity() == pre.spec_mqtt().spec_capacity()
    &&& if fps0.window_closes(now) {
        &&& post.spec_last_rate() matches Some(rate) && rate == fps0.spec_rate(now)
        &&& post.spec_fps().spec_count() == 0
        &&& post.spec_fps().spec_window_start() == now
    } else {
        &&& post.spec_last_rate() is None
        &&& post.spec_fps().spec_count() == FramesPerSecond::bumped(fps0.spec_count())
        &&& post.spec_fps().spec_window_start() == fps0.spec_window_start()
    }
    &&& post_interface.spec_shutdown_requested() == (pre_interface.spec_shutdown_requested()
        || spec_any_shutdown(inbox))
    &&& if reporting_off {
        &&& outcome is Ok
        &&& post.spec_mqtt().spec_outbox() == pre.spec_mqtt().spec_outbox()
        &&& post_context.spec_tasks() == pre_context.spec_tasks()
        &&& post_context.spec_spawned() == pre_context.spec_spawned()
    } else if pre.spec_mqtt().spec_outbox().len() < pre.spec_mqtt().spec_capacity() {
        let sent = post.spec_mqtt().spec_outbox().last();
        &&& outcome is Ok
        &&& post.spec_mqtt().spec_outbox().len() == pre.spec_mqtt().spec_outbox().len() + 1
        &&& post.spec_mqtt().spec_outbox().drop_last() == pre.spec_mqtt().spec_outbox()
        &&& sent.topic@ == spec_frame_topic()
        &&& sent.payload@ == spec_frame_payload(
            pre_interface.spec_frame(),
            pre_interface.spec_position().0,
            pre_interface.spec_position().1,
            pre_interface.spec_position().2,
        )
        &&& post_context.spec_tasks() == pre_context.spec_tasks().push(
            (Task { steps: BACKGROUND_TASK_STEPS }),
        )
        &&& post_context.spec_spawned() == pre_context.spec_spawned() + 1
    } else {
        &&& outcome == Err::<(), RuntimeError>(RuntimeError::PublishQueueFull)
        &&& post.spec_mqtt().spec_outbox() == pre.spec_mqtt().spec_outbox()
        &&& post_context.spec_tasks() == pre_context.spec_tasks()
        &&& post_context.spec_spawned() == pre_context.spec_spawned()
    }
}

impl Plugin for RustPlugin {
    /// The mailbox's bound is respected.
    open spec fn inv(&self) -> bool {
        self.spec_mqtt().wf()
    }

    /// Room must remain in the context's accounting for the one task a
    /// frame may queue.
    open spec fn frame_req(&self, context: Context, interface: Interface) -> bool {
        context.spec_spawned() < u64::MAX
    }

    open spec fn frame_ens(
        &self,
        post: Self,
        pre_context: Context,
        post_context: Context,
        pre_interface: Interface,
        post_interface: Interface,
        outcome: Result<(), RuntimeError>,
    ) -> bool {
        rust_plugin_frame_ens(
            *self,
            post,
            pre_context,
            post_context,
            pre_interface,
            post_interface,
            outcome,
        )
    }

    fn on_frame(&mut self, context: &mut Context, interface: &mut Interface) -> (outcome: Result<
        (),
        RuntimeError,
    >) {
        let rate = self.fps.tick(interface.now_millis());
        self.last_rate = rate;

        let ghost fps_after = self.fps;
        let ghost inbox0 = self.mqtt.spec_inbox();
        let ghost speedtest0 = self.speedtest;
        let ghost shutdown0 = interface.spec_shutdown_requested();

        loop
            invariant
                self.mqtt.wf(),
                self.mqtt.spec_capacity() == old(self).spec_mqtt().spec_capacity(),
                self.mqtt.spec_outbox() == old(self).spec_mqtt().spec_outbox(),
                self.mqtt.spec_subscriptions() == old(self).spec_mqtt().spec_subscriptions(),
                self.fps == fps_after,
                self.last_rate == rate,
                spec_speedtest_after(self.mqtt.spec_inbox(), self.speedtest)
                    == spec_speedtest_after(inbox0, speedtest0),
                (interface.spec_shutdown_requested() || spec_any_shutdown(self.mqtt.spec_inbox()))
                    == (shutdown0 || spec_any_shutdown(inbox0)),
                interface.same_snapshot(*old(interface)),
                shutdown0 ==> interface.spec_shutdown_requested(),
            ensures
                self.mqtt.wf(),
                self.mqtt.spec_inbox().len() == 0,
                self.mqtt.spec_capacity() == old(self).spec_mqtt().spec_capacity(),
                self.mqtt.spec_outbox() == old(self).spec_mqtt().spec_outbox(),
                self.mqtt.spec_subscriptions() == old(self).spec_mqtt().spec_subscriptions(),
                self.fps == fps_after,
                self.last_rate == rate,
                self.speedtest == spec_speedtest_after(inbox0, speedtest0),
                interface.spec_shutdown_requested() == (shutdown0 || spec_any_shutdown(inbox0)),
                interface.same_snapshot(*old(interface)),
            decreases self.mqtt.spec_inbox().len(),
        {
            let message = self.mqtt.try_recv();
            match message {
                None => {
                    break;
                },
                Some(m) => {
                    match parse_command(&m.payload) {
                        Ok(Command::Shutdown(requested)) => {
                            if requested {
                                interface.request_shutdown();
                            }
                        },
                        Ok(Command::SpeedTest(value)) => {
                            self.speedtest = value;
                        },
                        Err(_) => {
                            // malformed: drop this message, keep the tick going
                        },
                    }
                },
            }
        }

        if self.speedtest {
            return Ok(());
        }

        let position = interface.position();
        let payload = render_frame_payload(interface.frame(), position.0, position.1, position.2);
        let topic = String::from_str("rusty_bind/frame");
        let published = self.mqtt.try_publish(topic, payload);
        match published {
            Err(error) => {
                return Err(error);
            },
            Ok(_) => {},
        }

        context.spawn_task(Task { steps: BACKGROUND_TASK_STEPS });
        proof {
            assert(old(context).spec_tasks().is_prefix_of(context.spec_tasks())) by {
                assert(context.spec_tasks().take(old(context).spec_tasks().len() as int)
                    =~= old(context).spec_tasks());
            }
            assert(self.mqtt.spec_outbox().drop_last() =~= old(self).spec_mqtt().spec_outbox());
        }
        Ok(())
    }
}

} // verus!
