//! The fan-out of one command over a selection of devices: one run per
//! device, in order; a run that exits with failure is reported and the next
//! device is still served, a run that cannot be started ends the batch.
use vstd::prelude::*;

use crate::commands::{device_command, invocation, owned_args, strs_view};
use crate::device::{ids_view, DeviceSelection};
use crate::error::AdbError;

verus! {

/// What became of one per-device run of the bridge executable.
#[derive(Debug, Clone, Copy, PartialEq, Eq, Structural)]
pub enum Outcome {
    /// It exited with success.
    Succeeded,
    /// It exited with failure.
    Failed,
    /// It could not be started.
    NotStarted,
}

/// A fan-out in the abstract: the devices, the command's arguments, the
/// position of the next device, and whether a run could not be started.
pub struct FanOutView {
    pub targets: Seq<Seq<char>>,
    pub args: Seq<Seq<char>>,
    pub next: nat,
    pub aborted: bool,
}

pub open spec fn fan_out_start(targets: Seq<Seq<char>>, args: Seq<Seq<char>>) -> FanOutView {
    FanOutView { targets, args, next: 0, aborted: false }
}

/// The bridge arguments of the run that is due, if any.
pub open spec fn pending_run(st: FanOutView) -> Option<Seq<Seq<char>>> {
    if !st.aborted && st.next < st.targets.len() {
        Some(invocation(st.targets[st.next as int], st.args))
    } else {
        None
    }
}

/// The result of a finished fan-out: only a run that could not be started
/// makes it fail.
pub open spec fn fan_out_result(st: FanOutView) -> Result<(), AdbError> {
    if st.aborted {
        Err(AdbError::Spawn)
    } else {
        Ok(())
    }
}

/// The fan-out after the due run ended with `o`.
pub open spec fn after_outcome(st: FanOutView, o: Outcome) -> FanOutView {
    if st.aborted || st.next >= st.targets.len() {
        st
    } else if o == Outcome::NotStarted {
        FanOutView { aborted: true, ..st }
    } else {
        FanOutView { next: st.next + 1, ..st }
    }
}

/// The runs a driver performs when the runs it performs end, one after
/// another, with `outcomes`.
pub open spec fn runs(st: FanOutView, outcomes: Seq<Outcome>) -> Seq<Seq<Seq<char>>>
    decreases outcomes.len(),
{
    match pending_run(st) {
        Some(argv) => if outcomes.len() > 0 {
            seq![argv] + runs(after_outcome(st, outcomes[0]), outcomes.drop_first())
        } else {
            Seq::empty()
        },
        None => Seq::empty(),
    }
}

/// The fan-out after the runs it asks for end with `outcomes`.
pub open spec fn after_outcomes(st: FanOutView, outcomes: Seq<Outcome>) -> FanOutView
    decreases outcomes.len(),
{
    if outcomes.len() == 0 {
        st
    } else {
        after_outcomes(after_outcome(st, outcomes[0]), outcomes.drop_first())
    }
}

/// What the driver of a fan-out does next.
pub enum FanOutStep {
    /// Run the bridge executable with these arguments.
    Run(Vec<String>),
    /// Stop, with this result.
    Done(Result<(), AdbError>),
}

/// A fan-out in progress.
pub struct FanOut {
    targets: Vec<String>,
    args: Vec<String>,
    next: usize,
    aborted: bool,
}

impl View for FanOut {
    type V = FanOutView;

    closed spec fn view(&self) -> FanOutView {
        FanOutView {
            targets: ids_view(self.targets@),
            args: ids_view(self.args@),
            next: self.next as nat,
            aborted: self.aborted,
        }
    }
}

impl FanOut {
    /// The run that is due, or the result where none is.
    pub fn step(&self) -> (r: FanOutStep)
        ensures
            match r {
                FanOutStep::Run(argv) => pending_run(self@) == Some(ids_view(argv@)),
                FanOutStep::Done(res) => pending_run(self@) is None && res == fan_out_result(
                    self@,
                ),
            },
    {
        if !self.aborted && self.next < self.targets.len() {
            FanOutStep::Run(device_command(self.targets[self.next].as_str(), self.args.as_slice()))
        } else if self.aborted {
            FanOutStep::Done(Err(AdbError::Spawn))
        } else {
            FanOutStep::Done(Ok(()))
        }
    }

    /// Takes note of how the due run ended.
    pub fn record(&mut self, outcome: Outcome)
        ensures
            final(self)@ == after_outcome(old(self)@, outcome),
    {
        if self.aborted || self.next >= self.targets.len() {
            return;
        }
        if outcome == Outcome::NotStarted {
            self.aborted = true;
        } else {
            self.next = self.next + 1;
        }
    }
}

/// A fan-out of `cmd_args` over the devices of `selection`.
pub fn execute_command_on_devices(selection: DeviceSelection, cmd_args: &[&str]) -> (r: FanOut)
    ensures
        r@ == fan_out_start(selection.targets(), strs_view(cmd_args@)),
{
    let targets = match selection {
        DeviceSelection::Single(d) => {
            let mut v: Vec<String> = Vec::new();
            v.push(d);
            assert(ids_view(v@) =~= seq![d@]);
            v
        },
        DeviceSelection::All(ds) => ds,
    };
    FanOut { targets, args: owned_args(cmd_args), next: 0, aborted: false }
}

proof fn lemma_runs_from(st: FanOutView, outcomes: Seq<Outcome>)
    requires
        !st.aborted,
        st.next <= st.targets.len(),
        outcomes.len() == st.targets.len() - st.next,
        forall|i: int| 0 <= i < outcomes.len() ==> outcomes[i] != Outcome::NotStarted,
    ensures
        runs(st, outcomes).len() == outcomes.len(),
        forall|i: int|
            0 <= i < outcomes.len() ==> #[trigger] runs(st, outcomes)[i] == invocation(
                st.targets[st.next + i],
                st.args,
            ),
        pending_run(after_outcomes(st, outcomes)) is None,
        fan_out_result(after_outcomes(st, outcomes)) == Ok::<(), AdbError>(()),
    decreases outcomes.len(),
{
    if outcomes.len() > 0 {
        let nx = after_outcome(st, outcomes[0]);
        let rest = outcomes.drop_first();
        assert forall|i: int| 0 <= i < rest.len() implies rest[i] != Outcome::NotStarted by {
            assert(rest[i] == outcomes[i + 1]);
        }
        lemma_runs_from(nx, rest);
        assert forall|i: int| 0 <= i < outcomes.len() implies #[trigger] runs(st, outcomes)[i]
            == invocation(st.targets[st.next + i], st.args) by {
            if i > 0 {
                assert(runs(st, outcomes)[i] == runs(nx, rest)[i - 1]);
            }
        }
    }
}

/// A fan-out over `targets` runs the command once on each of them, in
/// order, whether earlier runs exited with success or failure; when every
/// run could be started, it then stops with success.
pub proof fn lemma_fan_out_runs_every_device(
    targets: Seq<Seq<char>>,
    args: Seq<Seq<char>>,
    outcomes: Seq<Outcome>,
)
    requires
        outcomes.len() == targets.len(),
        forall|i: int| 0 <= i < outcomes.len() ==> outcomes[i] != Outcome::NotStarted,
    ensures
        runs(fan_out_start(targets, args), outcomes).len() == targets.len(),
        forall|i: int|
            0 <= i < targets.len() ==> #[trigger] runs(fan_out_start(targets, args), outcomes)[i]
                == invocation(targets[i], args),
        pending_run(after_outcomes(fan_out_start(targets, args), outcomes)) is None,
        fan_out_result(after_outcomes(fan_out_start(targets, args), outcomes)) == Ok::<
            (),
            AdbError,
        >(()),
{
    lemma_runs_from(fan_out_start(targets, args), outcomes);
}

} // verus!
