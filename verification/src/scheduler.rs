//! The effect scheduler: a registry of named controller drivers, the ordered
//! hand-off queue that carries colour-update commands from the script side to
//! the bus-writing side, and the per-tick drain that applies queued commands
//! to hardware in submission order.
//!
//! The hand-off queue is deliberately unbounded, so a submission never
//! blocks the script side; a producer can therefore outrun a stalled writer.
//! A command naming an unknown controller surfaces as a typed error from
//! [`EffectScheduler::run_pending`]: a configuration error is the caller's to
//! handle, not a reason to abort inside the library.

use vstd::prelude::*;

use crate::aura_controller::{spec_same_config, AuraController};
use crate::aura_error::{AuraError, AuraResult};

verus! {

/// The mathematical value of one pending command: the target controller's
/// name and the raw colour frame.
pub struct CommandView {
    pub controller_name: Seq<char>,
    pub colours: Seq<u8>,
}

/// One colour-update command: the name of the controller it addresses and
/// the colour frame to upload. Ownership passes to the queue on submission
/// and to the scheduler on receipt.
pub struct PendingCommand {
    pub controller_name: String,
    pub colours: Vec<u8>,
}

impl View for PendingCommand {
    type V = CommandView;

    open spec fn view(&self) -> CommandView {
        CommandView { controller_name: self.controller_name@, colours: self.colours@ }
    }
}

/// The ordered hand-off queue between the script side and the bus-writing
/// side. Commands leave in exactly the order they entered.
pub struct CommandQueue {
    items: Vec<PendingCommand>,
}

impl View for CommandQueue {
    type V = Seq<CommandView>;

    closed spec fn view(&self) -> Seq<CommandView> {
        self.items@.map_values(|c: PendingCommand| c@)
    }
}

impl CommandQueue {
    /// An empty queue.
    pub fn new() -> (q: CommandQueue)
        ensures
            q@ == Seq::<CommandView>::empty(),
    {
        let q = CommandQueue { items: Vec::new() };
        proof {
            assert(q@ =~= Seq::<CommandView>::empty());
        }
        q
    }

    /// How many commands are waiting.
    pub fn len(&self) -> (n: usize)
        ensures
            n == self@.len(),
    {
        self.items.len()
    }

    /// Appends a command at the back: submission never blocks and never
    /// reorders.
    pub fn submit(&mut self, command: PendingCommand)
        ensures
            final(self)@ == old(self)@.push(command@),
    {
        let ghost pre = self.items@;
        self.items.push(command);
        proof {
            assert(self.items@.map_values(|c: PendingCommand| c@) =~= pre.map_values(
                |c: PendingCommand| c@,
            ).push(self.items@.last()@));
        }
    }

    /// Removes and returns the oldest command, if any.
    pub fn pop_front(&mut self) -> (r: Option<PendingCommand>)
        ensures
            old(self)@.len() == 0 ==> r is None && final(self)@ == old(self)@,
            old(self)@.len() > 0 ==> {
                &&& r matches Some(c) && c@ == old(self)@[0]
                &&& final(self)@ == old(self)@.drop_first()
            },
    {
        if self.items.len() == 0 {
            None
        } else {
            let c = self.items.remove(0);
            proof {
                assert(self.items@.map_values(|c: PendingCommand| c@) =~= old(
                    self,
                ).items@.map_values(|c: PendingCommand| c@).drop_first());
            }
            Some(c)
        }
    }
}

/// Message of the error returned when a queued command names a controller
/// that is not in the registry.
pub open spec fn spec_unknown_controller_msg() -> Seq<char> {
    "unknown controller name submitted"@
}

/// Every driver of the registry is well-formed and their names are unique
/// and non-empty.
pub open spec fn spec_registry_wf(registry: Seq<AuraController>) -> bool {
    &&& forall|i: int| 0 <= i < registry.len() ==> (#[trigger] registry[i]).wf()
    &&& forall|i: int| 0 <= i < registry.len() ==> (#[trigger] registry[i]).spec_name().len() > 0
    &&& forall|i: int, j: int|
        0 <= i < j < registry.len() ==> (#[trigger] registry[i]).spec_name() != (
        #[trigger] registry[j]).spec_name()
}

/// Some driver of the registry carries this name.
pub open spec fn spec_registry_has_name(registry: Seq<AuraController>, name: Seq<char>) -> bool {
    exists|i: int| 0 <= i < registry.len() && (#[trigger] registry[i]).spec_name() == name
}

/// The command addresses a registered driver and carries exactly three bytes
/// per LED of that driver: the condition under which applying it can only
/// fail in the bus transport.
pub open spec fn spec_command_applicable(registry: Seq<AuraController>, cmd: CommandView) -> bool {
    exists|i: int|
        0 <= i < registry.len() && (#[trigger] registry[i]).spec_name() == cmd.controller_name
            && cmd.colours.len() == 3 * registry[i].spec_total()
}

/// The scheduler: an immutable registry of named drivers built before the
/// cadence loop starts, the hand-off queue the script side feeds, and (as
/// ghost state) the ordered trace of every command applied to hardware.
pub struct EffectScheduler {
    controllers: Vec<AuraController>,
    queue: CommandQueue,
    applied: Ghost<Seq<CommandView>>,
}

impl EffectScheduler {
    /// The registered drivers, in registration order.
    pub closed spec fn spec_controllers(&self) -> Seq<AuraController> {
        self.controllers@
    }

    /// The commands waiting in the hand-off queue, oldest first.
    pub closed spec fn spec_queue(&self) -> Seq<CommandView> {
        self.queue@
    }

    /// The ordered trace of every command applied to hardware so far.
    pub closed spec fn spec_applied(&self) -> Seq<CommandView> {
        self.applied@
    }

    /// Registry invariant: every registered driver is well-formed and their
    /// names are unique and non-empty.
    pub open spec fn wf(&self) -> bool {
        spec_registry_wf(self.spec_controllers())
    }

    /// Some registered driver carries this name.
    pub open spec fn spec_known_name(&self, name: Seq<char>) -> bool {
        spec_registry_has_name(self.spec_controllers(), name)
    }

    /// A scheduler with no drivers, an empty queue and an empty trace.
    pub fn new() -> (s: EffectScheduler)
        ensures
            s.wf(),
            s.spec_controllers() == Seq::<AuraController>::empty(),
            s.spec_queue() == Seq::<CommandView>::empty(),
            s.spec_applied() == Seq::<CommandView>::empty(),
    {
        EffectScheduler {
            controllers: Vec::new(),
            queue: CommandQueue::new(),
            applied: Ghost(Seq::empty()),
        }
    }

    /// Adds a driver to the registry under its display name. Registration
    /// happens once, before the cadence loop starts; the caller must keep
    /// names unique and non-empty.
    pub fn register(&mut self, controller: AuraController)
        requires
            old(self).wf(),
            controller.wf(),
            controller.spec_name().len() > 0,
            !old(self).spec_known_name(controller.spec_name()),
        ensures
            final(self).wf(),
            final(self).spec_controllers() == old(self).spec_controllers().push(controller),
            final(self).spec_queue() == old(self).spec_queue(),
            final(self).spec_applied() == old(self).spec_applied(),
    {
        let ghost pre = self.controllers@;
        self.controllers.push(controller);
        proof {
            let post = self.controllers@;
            assert forall|i: int, j: int|
                0 <= i < j < post.len() implies (#[trigger] post[i]).spec_name() != (
            #[trigger] post[j]).spec_name() by {
                if j == post.len() - 1 {
                    assert(post[i] == pre[i]);
                    assert(pre[i].spec_name() != controller.spec_name());
                }
            }
        }
    }

    /// The script-side query: the LED count of the named controller, or
    /// `None` exactly when no registered driver carries the name.
    pub fn led_count_of(&self, name: &String) -> (r: Option<usize>)
        ensures
            r is Some <==> self.spec_known_name(name@),
            r matches Some(n) ==> exists|i: int|
                0 <= i < self.spec_controllers().len() && (#[trigger] self.spec_controllers()[i])
                    .spec_name() == name@ && n as int == self.spec_controllers()[i].spec_total(),
    {
        match self.lookup(name) {
            Some(i) => Some(self.controllers[i].total_led_count()),
            None => None,
        }
    }

    /// The script-side submission: appends one command to the hand-off queue
    /// and returns immediately, without touching the bus.
    pub fn submit(&mut self, controller_name: String, colours: Vec<u8>)
        ensures
            final(self).spec_queue() == old(self).spec_queue().push(
                CommandView { controller_name: controller_name@, colours: colours@ },
            ),
            final(self).spec_controllers() == old(self).spec_controllers(),
            final(self).spec_applied() == old(self).spec_applied(),
            final(self).wf() == old(self).wf(),
    {
        self.queue.submit(PendingCommand { controller_name, colours });
    }

    /// Index of the registered driver with the given name.
    fn lookup(&self, name: &String) -> (r: Option<usize>)
        ensures
            r is Some <==> self.spec_known_name(name@),
            r matches Some(i) ==> 0 <= i < self.spec_controllers().len() && self.spec_controllers(
            )[i as int].spec_name() == name@,
    {
        let mut idx: usize = 0;
        while idx < self.controllers.len()
            invariant
                0 <= idx <= self.spec_controllers().len(),
                forall|j: int|
                    0 <= j < idx ==> (#[trigger] self.spec_controllers()[j]).spec_name() != name@,
            decreases self.spec_controllers().len() - idx,
        {
            let cname = self.controllers[idx].name();
            if *cname == *name {
                return Some(idx);
            }
            idx = idx + 1;
        }
        None
    }

    /// One drain pass of the bus-writing side: commands are taken from the
    /// queue oldest-first and applied, in exactly that order, to the named
    /// drivers. The pass stops at the first failure: a command naming no
    /// registered driver (a configuration error, surfaced as a typed error),
    /// a length-mismatch rejection, or a bus failure. Commands behind the
    /// failing one stay queued.
    #[verifier::loop_isolation(false)]
    pub fn run_pending(&mut self) -> (r: AuraResult<()>)
        requires
            old(self).wf(),
        ensures
            final(self).wf(),
            final(self).spec_controllers().len() == old(self).spec_controllers().len(),
            forall|i: int|
                0 <= i < old(self).spec_controllers().len() ==> spec_same_config(
                    old(self).spec_controllers()[i],
                    final(self).spec_controllers()[i],
                ),
            r is Ok ==> {
                &&& final(self).spec_queue().len() == 0
                &&& final(self).spec_applied() == old(self).spec_applied() + old(
                    self,
                ).spec_queue()
                &&& forall|k: int|
                    0 <= k < old(self).spec_queue().len() ==> spec_command_applicable(
                        old(self).spec_controllers(),
                        #[trigger] old(self).spec_queue()[k],
                    )
            },
            r is Err ==> exists|k: int|
                {
                    &&& 0 <= k < old(self).spec_queue().len()
                    &&& final(self).spec_applied() == old(self).spec_applied() + old(
                        self,
                    ).spec_queue().take(k)
                    &&& final(self).spec_queue() == old(self).spec_queue().skip(k + 1)
                    &&& !old(self).spec_known_name(
                        old(self).spec_queue()[k].controller_name,
                    ) ==> (r matches Err(AuraError::Other(s))
                        && s@ == spec_unknown_controller_msg())
                    &&& old(self).spec_known_name(
                        old(self).spec_queue()[k].controller_name,
                    ) ==> exists|i: int|
                        {
                            &&& 0 <= i < old(self).spec_controllers().len()
                            &&& (#[trigger] old(self).spec_controllers()[i]).spec_name() == old(
                                self,
                            ).spec_queue()[k].controller_name
                            &&& old(self).spec_queue()[k].colours.len() != 3 * old(
                                self,
                            ).spec_controllers()[i].spec_total() ==> (r matches Err(
                                AuraError::Other(s),
                            ) && s@ == crate::protocol::spec_invalid_led_count_msg())
                            &&& old(self).spec_queue()[k].colours.len() == 3 * old(
                                self,
                            ).spec_controllers()[i].spec_total() ==> (r matches Err(
                                AuraError::I2CError(_),
                            ))
                        }
                },
    {
        let ghost q0 = self.spec_queue();
        let ghost a0 = self.spec_applied();
        let ghost regs0 = self.spec_controllers();
        let ghost mut processed: int = 0;
        while self.queue.len() > 0
            invariant
                self.wf(),
                0 <= processed <= q0.len(),
                self.spec_controllers().len() == regs0.len(),
                forall|i: int|
                    0 <= i < regs0.len() ==> spec_same_config(
                        regs0[i],
                        #[trigger] self.spec_controllers()[i],
                    ),
                self.spec_queue() == q0.skip(processed),
                self.spec_applied() == a0 + q0.take(processed),
                forall|j: int|
                    0 <= j < processed ==> spec_command_applicable(regs0, #[trigger] q0[j]),
            decreases q0.len() - processed,
        {
            let cmd = self.queue.pop_front().unwrap();
            proof {
                assert(cmd@ == q0[processed]);
                assert(q0.skip(processed).drop_first() =~= q0.skip(processed + 1));
            }
            let idx = match self.lookup(&cmd.controller_name) {
                Some(i) => i,
                None => {
                    proof {
                        let name = q0[processed].controller_name;
                        if spec_registry_has_name(regs0, name) {
                            let i = choose|i: int|
                                0 <= i < regs0.len() && (#[trigger] regs0[i]).spec_name() == name;
                            assert(self.spec_controllers()[i].spec_name() == name);
                        }
                    }
                    return Err(AuraError::other("unknown controller name submitted"));
                },
            };
            proof {
                assert(spec_same_config(
                    regs0[idx as int],
                    self.spec_controllers()[idx as int],
                ));
            }
            match self.controllers[idx].set_colours(cmd.colours.as_slice()) {
                Ok(()) => {},
                Err(e) => {
                    proof {
                        assert(regs0[idx as int].spec_name() == q0[processed].controller_name);
                    }
                    return Err(e);
                },
            }
            proof {
                self.applied@ = self.applied@.push(cmd@);
                assert((a0 + q0.take(processed)).push(q0[processed]) =~= a0 + q0.take(
                    processed + 1,
                ));
                assert(regs0[idx as int].spec_name() == q0[processed].controller_name);
                assert(spec_command_applicable(regs0, q0[processed]));
                processed = processed + 1;
            }
        }
        proof {
            assert(q0.skip(processed).len() == 0);
            assert(q0.take(processed) =~= q0);
        }
        Ok(())
    }
}

/// The hand-off ordering law: commands submitted in some order are applied in
/// exactly that order. By `submit`'s contract, submitting `a`, `b`, `c` in
/// turn extends the queue to `queue + [a, b, c]`; by `run_pending`'s
/// contract, a successful drain appends exactly the queue, in order, to the
/// applied trace. This lemma states the composition of the two.
pub proof fn lemma_handoff_preserves_submission_order(
    applied: Seq<CommandView>,
    queue: Seq<CommandView>,
    a: CommandView,
    b: CommandView,
    c: CommandView,
)
    ensures
        applied + queue.push(a).push(b).push(c) == (applied + queue) + seq![a, b, c],
{
    assert(applied + queue.push(a).push(b).push(c) =~= (applied + queue) + seq![a, b, c]);
}

} // verus!
