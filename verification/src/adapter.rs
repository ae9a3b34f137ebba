//! The adapter between the host's entry points and the core.
//!
//! The host addresses everything by an opaque handle.  The bridge owns the
//! process's execution context and the instance registry, and translates
//! the four host operations onto them:
//!
//! * `plugin_constructor` — run the one-time blocking setup, then register
//!   a fresh instance; a failed setup or a handle already in use registers
//!   nothing.
//! * `plugin_destructor` — unregister and drop; idempotent.
//! * `plugin_on_run` — the per-tick call: look the instance up (silently
//!   skipping unknown handles), run its frame with the context and the
//!   per-call interface view, intercept any error as a value, then advance
//!   background work within the fixed poll budget.
//! * `plugin_on_initialize` / `plugin_on_reset` — reserved no-ops.
//!
//! No error crosses these entry points as a fault: every outcome is a
//! plain value.

use vstd::prelude::*;

use crate::context::Context;
use crate::context::POLL_BUDGET;
use crate::context::Task;
use crate::context::spec_drain;
use crate::errors::ConstructionError;
use crate::errors::RuntimeError;
use crate::interface::Interface;
use crate::plugin::Plugin;
use crate::registry::Registry;
use crate::registry::lemma_find_is_element;
use crate::registry::lemma_remove_absent_is_noop;
use crate::registry::lemma_remove_elements;
use crate::registry::lemma_remove_then_find;
use crate::registry::spec_contains;
use crate::registry::spec_find;
use crate::registry::spec_remove;

verus! {

/// What one per-tick call came to.  Never a fault: an unknown handle is
/// silently skipped and a frame error is carried as a value for the host
/// side to log.
#[derive(Clone, Copy, PartialEq, Eq, Structural, Debug)]
pub enum TickOutcome {
    /// No instance is registered under the handle; no plugin work was done.
    NotRegistered,
    /// The instance completed its frame.
    Completed,
    /// The instance's frame failed; the instance stays registered and
    /// alive.
    Failed(RuntimeError),
}

/// The frame result a tick outcome stands for.
pub open spec fn spec_outcome_result(outcome: TickOutcome) -> Result<(), RuntimeError> {
    match outcome {
        TickOutcome::Failed(error) => Err(error),
        _ => Ok(()),
    }
}

/// Owns the execution context and the instance registry and carries the
/// host's entry points.  One bridge stands per process; the host hands it
/// explicitly to each call rather than reaching it through ambient
/// globals, which keeps it testable in isolation.
pub struct Bridge<P: Plugin> {
    context: Context,
    plugins: Registry<P>,
}

impl<P: Plugin> Bridge<P> {
    /// The execution context.
    pub closed spec fn spec_context(self) -> Context {
        self.context
    }

    /// The live (handle, instance) pairs, oldest registration first.
    pub closed spec fn spec_entries(self) -> Seq<(u64, P)> {
        self.plugins@
    }

    /// Bridge invariant: the context's accounting holds, handles are
    /// distinct, and every registered instance satisfies its own invariant.
    pub open spec fn wf(self) -> bool {
        &&& self.spec_context().wf()
        &&& crate::registry::distinct_handles(self.spec_entries())
        &&& forall|i: int|
            0 <= i < self.spec_entries().len() ==> (#[trigger] self.spec_entries()[i]).1.inv()
    }

    /// A bridge with a fresh context and no instances.
    pub fn new() -> (bridge: Bridge<P>)
        ensures
            bridge.wf(),
            bridge.spec_entries().len() == 0,
            bridge.spec_context().spec_tasks().len() == 0,
            bridge.spec_context().spec_spawned() == 0,
            bridge.spec_context().spec_completed() == 0,
    {
        Bridge { context: Context::new(), plugins: Registry::new() }
    }

    /// Construct and register an instance under `handle`.
    ///
    /// `setup_work` is the one-time blocking setup (establishing the
    /// required external connection); it is run to completion here, the
    /// only place blocking is permitted.  `setup` carries what the setup
    /// produced: a failed setup aborts construction with its error and the
    /// handle is never registered.  A handle already in use is rejected the
    /// same way, leaving the live instance untouched.
    pub fn plugin_constructor(
        &mut self,
        handle: u64,
        setup_work: Task,
        setup: Result<P, ConstructionError>,
    ) -> (registered: Result<(), ConstructionError>)
        requires
            old(self).wf(),
            old(self).spec_context().spec_spawned() < u64::MAX,
            setup matches Ok(p) ==> p.inv(),
        ensures
            final(self).wf(),
            final(self).spec_context().spec_tasks() == old(self).spec_context().spec_tasks(),
            final(self).spec_context().spec_spawned() == old(
                self,
            ).spec_context().spec_spawned() + 1,
            final(self).spec_context().spec_completed() == old(
                self,
            ).spec_context().spec_completed() + 1,
            match setup {
                Err(error) => {
                    &&& registered == Err::<(), ConstructionError>(error)
                    &&& final(self).spec_entries() == old(self).spec_entries()
                },
                Ok(instance) => {
                    if spec_contains(old(self).spec_entries(), handle) {
                        &&& registered == Err::<(), ConstructionError>(
                            ConstructionError::HandleInUse,
                        )
                        &&& final(self).spec_entries() == old(self).spec_entries()
                    } else {
                        &&& registered is Ok
                        &&& final(self).spec_entries() == old(self).spec_entries().push(
                            (handle, instance),
                        )
                        &&& spec_find(final(self).spec_entries(), handle) == Some(instance)
                    }
                },
            },
    {
        let _setup_steps = self.context.block_on_async(setup_work);
        match setup {
            Err(error) => Err(error),
            Ok(instance) => {
                let ghost pre_entries = self.plugins@;
                match self.plugins.insert(handle, instance) {
                    Ok(_) => {
                        proof {
                            assert forall|i: int| 0 <= i < self.spec_entries().len() implies (
                            #[trigger] self.spec_entries()[i]).1.inv() by {
                                if i < pre_entries.len() {
                                    assert(self.spec_entries()[i] == pre_entries[i]);
                                }
                            }
                        }
                        Ok(())
                    },
                    Err(_rejected) => Err(ConstructionError::HandleInUse),
                }
            },
        }
    }

    /// Unregister and drop the instance under `handle`.  A no-op, not an
    /// error, when the handle is unknown; other handles are never touched.
    pub fn plugin_destructor(&mut self, handle: u64)
        requires
            old(self).wf(),
        ensures
            final(self).wf(),
            final(self).spec_context() == old(self).spec_context(),
            final(self).spec_entries() == spec_remove(old(self).spec_entries(), handle),
            !spec_contains(old(self).spec_entries(), handle) ==> final(self).spec_entries() == old(
                self,
            ).spec_entries(),
    {
        let ghost pre_entries = self.plugins@;
        self.plugins.remove(handle);
        proof {
            if !spec_contains(pre_entries, handle) {
                lemma_remove_absent_is_noop(pre_entries, handle);
            }
            lemma_remove_elements(pre_entries, handle);
            assert forall|i: int| 0 <= i < self.spec_entries().len() implies (
            #[trigger] self.spec_entries()[i]).1.inv() by {
                let j = choose|j: int|
                    0 <= j < pre_entries.len() && #[trigger] spec_remove(pre_entries, handle)[i]
                        == pre_entries[j];
                assert(pre_entries[j].1.inv());
            }
        }
    }

    /// One per-tick call for `handle`.
    ///
    /// An unknown handle does no plugin work and produces no error.  A
    /// known instance runs one frame against the per-call `interface` view;
    /// whatever the frame returns is intercepted here as the outcome, never
    /// propagated as a fault, and the instance stays registered.  Either
    /// way the call ends by advancing background work within the fixed
    /// poll budget.
    pub fn plugin_on_run(&mut self, handle: u64, interface: &mut Interface) -> (outcome:
        TickOutcome)
        requires
            old(self).wf(),
            match spec_find(old(self).spec_entries(), handle) {
                Some(instance) => instance.frame_req(old(self).spec_context(), *old(interface)),
                None => true,
            },
        ensures
            final(self).wf(),
            final(interface).same_snapshot(*old(interface)),
            old(interface).spec_shutdown_requested()
                ==> final(interface).spec_shutdown_requested(),
            match spec_find(old(self).spec_entries(), handle) {
                None => {
                    &&& outcome == TickOutcome::NotRegistered
                    &&& final(self).spec_entries() == old(self).spec_entries()
                    &&& *final(interface) == *old(interface)
                    &&& final(self).spec_context().spec_tasks() == spec_drain(
                        old(self).spec_context().spec_tasks(),
                        POLL_BUDGET,
                    ).0
                    &&& final(self).spec_context().spec_completed() == old(
                        self,
                    ).spec_context().spec_completed() + spec_drain(
                        old(self).spec_context().spec_tasks(),
                        POLL_BUDGET,
                    ).1
                    &&& final(self).spec_context().spec_spawned() == old(
                        self,
                    ).spec_context().spec_spawned()
                },
                Some(instance) => {
                    let entries1 = final(self).spec_entries();
                    let post_instance = entries1.last().1;
                    &&& entries1 == spec_remove(old(self).spec_entries(), handle).push(
                        (handle, post_instance),
                    )
                    &&& post_instance.inv()
                    &&& (outcome is Completed || outcome is Failed)
                    &&& exists|mid: Context|
                        {
                            &&& #[trigger] instance.frame_ens(
                                post_instance,
                                old(self).spec_context(),
                                mid,
                                *old(interface),
                                *final(interface),
                                spec_outcome_result(outcome),
                            )
                            &&& old(self).spec_context().spec_tasks().is_prefix_of(
                                mid.spec_tasks(),
                            )
                            &&& mid.spec_completed() == old(self).spec_context().spec_completed()
                            &&& mid.wf()
                            &&& final(self).spec_context().spec_tasks() == spec_drain(
                                mid.spec_tasks(),
                                POLL_BUDGET,
                            ).0
                            &&& final(self).spec_context().spec_completed() == mid.spec_completed()
                                + spec_drain(mid.spec_tasks(), POLL_BUDGET).1
                            &&& final(self).spec_context().spec_spawned() == mid.spec_spawned()
                        }
                },
            },
    {
        let ghost pre_entries = self.plugins@;
        let taken = self.plugins.take(handle);
        match taken {
            None => {
                proof {
                    lemma_remove_absent_is_noop(pre_entries, handle);
                }
                self.context.poll();
                TickOutcome::NotRegistered
            },
            Some(mut plugin) => {
                let ghost plugin_before = plugin;
                proof {
                    lemma_find_is_element(pre_entries, handle);
                }
                let result = plugin.on_frame(&mut self.context, interface);
                let ghost plugin_after = plugin;
                let ghost mid = self.context;
                proof {
                    lemma_remove_then_find(pre_entries, handle);
                }
                let reinserted = self.plugins.insert(handle, plugin);
                proof {
                    lemma_remove_elements(pre_entries, handle);
                    assert forall|i: int| 0 <= i < self.spec_entries().len() implies (
                    #[trigger] self.spec_entries()[i]).1.inv() by {
                        let cut = spec_remove(pre_entries, handle);
                        if i < cut.len() {
                            let j = choose|j: int|
                                0 <= j < pre_entries.len() && #[trigger] cut[i] == pre_entries[j];
                            assert(pre_entries[j].1.inv());
                        }
                    }
                }
                match reinserted {
                    Err(_returned) => {
                        // the handle was removed a moment ago, so the
                        // re-insert cannot be rejected
                        proof {
                            assert(false);
                        }
                        TickOutcome::NotRegistered
                    },
                    Ok(_) => {
                        self.context.poll();
                        let outcome = match result {
                            Ok(_) => TickOutcome::Completed,
                            Err(error) => TickOutcome::Failed(error),
                        };
                        proof {
                            assert(self.spec_entries() == spec_remove(pre_entries, handle).push(
                                (handle, plugin_after),
                            ));
                            assert(self.spec_entries().last() == (handle, plugin_after));
                            match result {
                                Ok(value) => {
                                    assert(value == ());
                                    assert(spec_outcome_result(outcome) == result);
                                },
                                Err(_) => {
                                    assert(spec_outcome_result(outcome) == result);
                                },
                            }
                            assert(plugin_before.frame_ens(
                                plugin_after,
                                old(self).spec_context(),
                                mid,
                                *old(interface),
                                *interface,
                                spec_outcome_result(outcome),
                            ));
                        }
                        outcome
                    },
                }
            },
        }
    }

    /// Reserved host hook; deliberately a no-op.
    pub fn plugin_on_initialize(&self, _handle: u64) {
    }

    /// Reserved host hook; deliberately a no-op.
    pub fn plugin_on_reset(&self, _handle: u64) {
    }

    /// A mutable borrow of the instance under `handle`, for the host-side
    /// transport pump: delivering inbound bus messages and draining
    /// outbound ones.  Mutations through the borrow land on exactly that
    /// entry; the context and every other instance are untouched.  The
    /// borrower must leave the instance's own invariant intact.
    pub fn find_mut(&mut self, handle: u64) -> (instance: Option<&mut P>)
        requires
            old(self).wf(),
        ensures
            final(self).spec_context() == old(self).spec_context(),
            match instance {
                None => {
                    &&& spec_find(old(self).spec_entries(), handle) is None
                    &&& final(self).spec_entries() == old(self).spec_entries()
                },
                Some(p) => {
                    &&& spec_find(old(self).spec_entries(), handle) == Some(*p)
                    &&& exists|i: int|
                        {
                            &&& 0 <= i < old(self).spec_entries().len()
                            &&& (#[trigger] old(self).spec_entries()[i]).0 == handle
                            &&& forall|k: int|
                                0 <= k < i ==> (#[trigger] old(self).spec_entries()[k]).0
                                    != handle
                            &&& final(self).spec_entries() == old(self).spec_entries().update(
                                i,
                                (handle, *final(p)),
                            )
                        }
                },
            },
    {
        self.plugins.find_mut(handle)
    }

    /// A shared borrow of the instance under `handle`, if any.
    pub fn find(&self, handle: u64) -> (instance: Option<&P>)
        ensures
            match instance {
                Some(p) => spec_find(self.spec_entries(), handle) == Some(*p),
                None => spec_find(self.spec_entries(), handle) is None,
            },
    {
        self.plugins.find(handle)
    }

    /// Whether an instance is registered under `handle`.
    pub fn contains(&self, handle: u64) -> (found: bool)
        ensures
            found == spec_contains(self.spec_entries(), handle),
    {
        self.plugins.contains(handle)
    }

    /// How many instances are registered.
    pub fn len(&self) -> (n: usize)
        ensures
            n == self.spec_entries().len(),
    {
        self.plugins.len()
    }

    /// A shared borrow of the execution context, for inspection.
    pub fn context(&self) -> (context: &Context)
        ensures
            *context == self.spec_context(),
    {
        &self.context
    }

    /// Tear the bridge down, dropping every instance, and report the
    /// context's task accounting: `(completed, abandoned)`.
    pub fn shutdown(self) -> (report: (u64, u64))
        requires
            self.wf(),
        ensures
            report.0 == self.spec_context().spec_completed(),
            report.1 == self.spec_context().spec_tasks().len(),
            report.0 + report.1 == self.spec_context().spec_spawned(),
    {
        let Bridge { context, plugins } = self;
        let _ = plugins;
        context.shutdown()
    }
}

} // verus!
