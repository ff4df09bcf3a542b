use vstd::prelude::*;

use crate::text::{tag, tagged_line, Source};

verus! {

/// The abstract state of a [`Supervisor`]: the slot and whether the one spawn
/// of this run has been claimed.
pub struct SupervisorView<H> {
    pub slot: Option<H>,
    pub spawn_claimed: bool,
}

/// Holds the handle of the child process while it is believed alive.
///
/// Shared between the startup and shutdown paths behind one lock; every
/// operation takes `&mut self`, so all reads and writes are serialized.
pub struct Supervisor<H> {
    slot: Option<H>,
    spawn_claimed: bool,
}

impl<H> View for Supervisor<H> {
    type V = SupervisorView<H>;

    closed spec fn view(&self) -> SupervisorView<H> {
        SupervisorView { slot: self.slot, spawn_claimed: self.spawn_claimed }
    }
}

/// The state after the one spawn of the run is claimed, and whether the claim
/// was granted.
pub open spec fn claim_spec<H>(v: SupervisorView<H>) -> (SupervisorView<H>, bool) {
    (SupervisorView { slot: v.slot, spawn_claimed: true }, !v.spawn_claimed)
}

/// The state after a handle is stored.
pub open spec fn record_spec<H>(v: SupervisorView<H>, h: H) -> SupervisorView<H> {
    SupervisorView { slot: Some(h), spawn_claimed: v.spawn_claimed }
}

/// The state after the shutdown path ran, and the handle it must kill.
pub open spec fn exit_spec<H>(v: SupervisorView<H>) -> (SupervisorView<H>, Option<H>) {
    (SupervisorView { slot: None, spawn_claimed: v.spawn_claimed }, v.slot)
}

impl<H> Supervisor<H> {
    /// An empty slot, before any spawn.
    pub fn new() -> (r: Self)
        ensures
            r@.slot is None,
            !r@.spawn_claimed,
    {
        Supervisor { slot: None, spawn_claimed: false }
    }

    /// Claims the one spawn of this run: `true` the first time, `false` ever
    /// after.
    pub fn claim_spawn(&mut self) -> (r: bool)
        ensures
            (final(self)@, r) == claim_spec(old(self)@),
    {
        let granted = !self.spawn_claimed;
        self.spawn_claimed = true;
        granted
    }

    /// Stores the handle of the child just spawned. The slot must be empty:
    /// storing a second handle is a contract violation.
    pub fn record(&mut self, h: H)
        requires
            old(self)@.slot is None,
        ensures
            final(self)@ == record_spec(old(self)@, h),
    {
        self.slot = Some(h);
    }

    /// The shutdown path: takes the handle out, leaving the slot empty. The
    /// caller force-kills what is returned; `None` means there is nothing to
    /// kill.
    pub fn on_exit(&mut self) -> (r: Option<H>)
        ensures
            (final(self)@, r) == exit_spec(old(self)@),
    {
        self.slot.take()
    }

    /// Whether a handle is stored.
    pub fn is_occupied(&self) -> (r: bool)
        ensures
            r == self@.slot is Some,
    {
        self.slot.is_some()
    }
}

/// One call on a [`Supervisor`].
pub enum Call<H> {
    ClaimSpawn,
    Record(H),
    Exit,
}

/// The state after one call.
pub open spec fn step<H>(v: SupervisorView<H>, c: Call<H>) -> SupervisorView<H> {
    match c {
        Call::ClaimSpawn => claim_spec(v).0,
        Call::Record(h) => record_spec(v, h),
        Call::Exit => exit_spec(v).0,
    }
}

/// The state after a run of calls, in order.
pub open spec fn run<H>(v: SupervisorView<H>, calls: Seq<Call<H>>) -> SupervisorView<H>
    decreases calls.len(),
{
    if calls.len() == 0 {
        v
    } else {
        run(step(v, calls[0]), calls.drop_first())
    }
}

/// How many calls of a run are granted a spawn.
pub open spec fn spawn_grants<H>(v: SupervisorView<H>, calls: Seq<Call<H>>) -> nat
    decreases calls.len(),
{
    if calls.len() == 0 {
        0
    } else {
        (if calls[0] is ClaimSpawn && claim_spec(v).1 { 1nat } else { 0nat })
            + spawn_grants(step(v, calls[0]), calls.drop_first())
    }
}

/// The state after `n` shutdowns in a row, and how many of them handed out a
/// handle to kill.
pub open spec fn exits<H>(v: SupervisorView<H>, n: nat) -> (SupervisorView<H>, nat)
    decreases n,
{
    if n == 0 {
        (v, 0)
    } else {
        let (w, taken) = exit_spec(v);
        let (u, k) = exits(w, (n - 1) as nat);
        (u, k + if taken is Some { 1nat } else { 0nat })
    }
}

proof fn lemma_no_grant_once_claimed<H>(v: SupervisorView<H>, calls: Seq<Call<H>>)
    requires
        v.spawn_claimed,
    ensures
        spawn_grants(v, calls) == 0,
    decreases calls.len(),
{
    if calls.len() > 0 {
        lemma_no_grant_once_claimed(step(v, calls[0]), calls.drop_first());
    }
}

/// A run of calls, whatever they are, is granted a spawn at most once, and
/// never once the spawn was claimed.
pub proof fn lemma_single_spawn<H>(v: SupervisorView<H>, calls: Seq<Call<H>>)
    ensures
        spawn_grants(v, calls) <= 1,
        v.spawn_claimed ==> spawn_grants(v, calls) == 0,
    decreases calls.len(),
{
    if calls.len() > 0 {
        let w = step(v, calls[0]);
        if calls[0] is ClaimSpawn {
            lemma_no_grant_once_claimed(w, calls.drop_first());
        } else {
            lemma_single_spawn(w, calls.drop_first());
        }
    }
}

/// Any number of shutdowns, one or more, leave the slot empty as the first one
/// did, and hand out the stored handle once: later shutdowns change nothing
/// and hand out nothing.
pub proof fn lemma_idempotent_shutdown<H>(v: SupervisorView<H>, n: nat)
    requires
        n >= 1,
    ensures
        exits(v, n).0 == exit_spec(v).0,
        exit_spec(v).0.slot is None,
        exit_spec(exit_spec(v).0) == (exit_spec(v).0, None::<H>),
        exits(v, n).1 == (if v.slot is Some { 1nat } else { 0nat }),
        exits(v, n).1 <= 1,
    decreases n,
{
    let w = exit_spec(v).0;
    if n > 1 {
        lemma_idempotent_shutdown(w, (n - 1) as nat);
    } else {
        assert(exits(w, 0) == (w, 0nat));
    }
    assert(exits(v, n) == (exits(w, (n - 1) as nat).0, exits(w, (n - 1) as nat).1 + if v.slot is Some { 1nat } else { 0nat }));
}

/// Once a handle is recorded, the next shutdown hands that very handle out to
/// be killed, whatever spawn claims came between.
pub proof fn lemma_no_missed_kill<H>(v: SupervisorView<H>, h: H, calls: Seq<Call<H>>)
    requires
        v.slot is None,
        forall|i: int| 0 <= i < calls.len() ==> #[trigger] calls[i] is ClaimSpawn,
    ensures
        exit_spec(run(record_spec(v, h), calls)).1 == Some(h),
    decreases calls.len(),
{
    if calls.len() > 0 {
        let w = SupervisorView { slot: None, spawn_claimed: true };
        assert(calls[0] is ClaimSpawn);
        assert(step(record_spec(v, h), calls[0]) == record_spec(w, h));
        assert forall|i: int| 0 <= i < calls.drop_first().len() implies
            #[trigger] calls.drop_first()[i] is ClaimSpawn by {
            assert(calls[i + 1] is ClaimSpawn);
        }
        lemma_no_missed_kill(w, h, calls.drop_first());
    }
}

/// The line logged once the shutdown path has killed the child, or failed to
/// (with the error's text).
pub fn stop_line(error: Option<&str>) -> (r: String)
    ensures
        r@ == match error {
            None => tag(Source::Child) + "stopped"@,
            Some(e) => tag(Source::Child) + "kill failed: "@ + e@,
        },
{
    match error {
        None => tagged_line(Source::Child, "stopped"),
        Some(e) => {
            let mut t = String::from_str("kill failed: ");
            t.append(e);
            let r = tagged_line(Source::Child, t.as_str());
            assert(r@ =~= tag(Source::Child) + "kill failed: "@ + e@);
            r
        },
    }
}

} // verus!
