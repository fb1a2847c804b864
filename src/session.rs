//! The screen-recording session: a state machine that tells its driver
//! which bridge invocation or user interaction comes next, and takes back
//! what came of it.
use vstd::prelude::*;
use vstd::string::StringExecFns;

use crate::commands::{device_command, invocation};
use crate::device::ids_view;
use crate::error::AdbError;
use crate::text::{chars_of, is_whitespace, is_ws};

verus! {

/// The text without its leading whitespace.
pub open spec fn trim_front(s: Seq<char>) -> Seq<char>
    decreases s.len(),
{
    if s.len() > 0 && is_ws(s[0]) {
        trim_front(s.drop_first())
    } else {
        s
    }
}

/// The text without its trailing whitespace.
pub open spec fn trim_back(s: Seq<char>) -> Seq<char>
    decreases s.len(),
{
    if s.len() > 0 && is_ws(s.last()) {
        trim_back(s.drop_last())
    } else {
        s
    }
}

/// The text without whitespace at either end, as `str::trim` gives it.
pub open spec fn trim(s: Seq<char>) -> Seq<char> {
    trim_back(trim_front(s))
}

/// An answer to the deletion question that means yes: empty, or `y` in
/// either case, once surrounding whitespace is dropped.
pub open spec fn deletion_confirmed(answer: Seq<char>) -> bool {
    let t = trim(answer);
    t.len() == 0 || t == seq!['y'] || t == seq!['Y']
}

/// Whether an answer to "Delete video from device? (Y/n)" means yes.
pub fn wants_deletion(answer: &str) -> (r: bool)
    ensures
        r == deletion_confirmed(answer@),
{
    let cs = chars_of(answer);
    let n = cs.len();
    let mut a: usize = 0;
    assert(cs@.subrange(0, n as int) =~= cs@);
    while a < n && is_whitespace(cs[a])
        invariant
            a <= n == cs@.len(),
            trim_front(cs@) == trim_front(cs@.subrange(a as int, n as int)),
        decreases n - a,
    {
        assert(cs@.subrange(a as int, n as int).drop_first() =~= cs@.subrange(a + 1, n as int));
        a = a + 1;
    }
    let mut b: usize = n;
    while b > a && is_whitespace(cs[b - 1])
        invariant
            a <= b <= n == cs@.len(),
            trim_front(cs@) == cs@.subrange(a as int, n as int),
            trim_back(cs@.subrange(a as int, n as int)) == trim_back(
                cs@.subrange(a as int, b as int),
            ),
        decreases b - a,
    {
        assert(cs@.subrange(a as int, b as int).drop_last() =~= cs@.subrange(a as int, b - 1));
        b = b - 1;
    }
    let ghost t = cs@.subrange(a as int, b as int);
    assert(trim(answer@) == t);
    if b == a {
        true
    } else if b == a + 1 {
        assert(t =~= seq![cs@[a as int]]);
        cs[a] == 'y' || cs[a] == 'Y'
    } else {
        assert(t.len() > 1);
        false
    }
}

/// The seconds the device is given to store a recording before it is
/// pulled.
pub const GRACE_SECS: u64 = 5;

/// Where a recording is written on the device.
pub open spec fn remote_path(filename: Seq<char>) -> Seq<char> {
    "/data/local/tmp/"@ + filename
}

/// The bridge arguments that start the recorder on the device.
pub open spec fn record_args(device: Seq<char>, filename: Seq<char>) -> Seq<Seq<char>> {
    invocation(device, seq!["shell"@, "screenrecord "@ + remote_path(filename)])
}

/// The bridge arguments that copy the recording to the local file.
pub open spec fn pull_args(device: Seq<char>, filename: Seq<char>) -> Seq<Seq<char>> {
    invocation(device, seq!["pull"@, remote_path(filename), filename])
}

/// The bridge arguments that delete the recording from the device.
pub open spec fn remove_args(device: Seq<char>, filename: Seq<char>) -> Seq<Seq<char>> {
    invocation(device, seq!["shell"@, "rm"@, remote_path(filename)])
}

/// The stages of a recording session.
#[derive(Debug, Clone, Copy, PartialEq, Eq, Structural)]
pub enum RecordState {
    /// Nothing started yet.
    Idle,
    /// The recorder runs; the interrupt handler is not registered yet.
    Spawned,
    /// The recorder runs and an interrupt lets this process end cleanly.
    InterruptArmed,
    /// The recorder has ended; the recording is to be pulled.
    Collecting,
    /// The recording was pulled; the user is to be asked about deletion.
    Saved,
    /// The user asked for the recording to be deleted from the device.
    CleanupPrompted,
    /// The deletion was attempted.
    CleanupDone,
    /// The session is over, with its result.
    Terminal,
}

/// What the driver of a session observed after doing what it was asked.
pub enum RecordEvent {
    /// The recorder was started.
    Started,
    /// The bridge executable could not be started.
    NotStarted,
    /// The interrupt handler is in place (whether or not registering it
    /// succeeded).
    Armed,
    /// The recorder ended, whatever its exit status.
    Exited,
    /// Waiting for the recorder failed.
    WaitFailed,
    /// The pull exited; `true` where it succeeded.
    PullExited(bool),
    /// The user's answer to the deletion question.
    Answer(String),
    /// No answer could be read.
    InputFailed,
    /// The deletion ran, whatever came of it.
    RemoveFinished,
}

/// What the driver of a session is to do next.
pub enum RecordAction {
    /// Start the bridge executable with these arguments and keep it running.
    Spawn(Vec<String>),
    /// Register the interrupt handler.
    ArmInterrupt,
    /// Wait for the recorder to end.
    Wait,
    /// Sleep this many seconds, then run the bridge executable with these
    /// arguments.
    SleepThenPull(u64, Vec<String>),
    /// Report the local file and ask whether to delete the recording from
    /// the device.
    Prompt(String),
    /// Run the bridge executable with these arguments; its result is not
    /// looked at.
    Remove(Vec<String>),
    /// End the session with this result.
    Finish(Result<(), AdbError>),
}

/// A session's next action in the abstract.
pub enum PlannedAction {
    Spawn(Seq<Seq<char>>),
    ArmInterrupt,
    Wait,
    SleepThenPull(u64, Seq<Seq<char>>),
    Prompt(Seq<char>),
    Remove(Seq<Seq<char>>),
    Finish(Result<(), AdbError>),
}

pub open spec fn action_view(a: RecordAction) -> PlannedAction {
    match a {
        RecordAction::Spawn(v) => PlannedAction::Spawn(ids_view(v@)),
        RecordAction::ArmInterrupt => PlannedAction::ArmInterrupt,
        RecordAction::Wait => PlannedAction::Wait,
        RecordAction::SleepThenPull(secs, v) => PlannedAction::SleepThenPull(secs, ids_view(v@)),
        RecordAction::Prompt(f) => PlannedAction::Prompt(f@),
        RecordAction::Remove(v) => PlannedAction::Remove(ids_view(v@)),
        RecordAction::Finish(res) => PlannedAction::Finish(res),
    }
}

/// A session in the abstract.
pub struct SessionView {
    pub device: Seq<char>,
    pub filename: Seq<char>,
    pub state: RecordState,
    pub result: Result<(), AdbError>,
}

pub open spec fn session_start(device: Seq<char>, filename: Seq<char>) -> SessionView {
    SessionView { device, filename, state: RecordState::Idle, result: Ok(()) }
}

/// What a session asks for in each stage.
pub open spec fn planned_action(st: SessionView) -> PlannedAction {
    match st.state {
        RecordState::Idle => PlannedAction::Spawn(record_args(st.device, st.filename)),
        RecordState::Spawned => PlannedAction::ArmInterrupt,
        RecordState::InterruptArmed => PlannedAction::Wait,
        RecordState::Collecting => PlannedAction::SleepThenPull(
            GRACE_SECS,
            pull_args(st.device, st.filename),
        ),
        RecordState::Saved => PlannedAction::Prompt(st.filename),
        RecordState::CleanupPrompted => PlannedAction::Remove(remove_args(st.device, st.filename)),
        RecordState::CleanupDone => PlannedAction::Finish(Ok(())),
        RecordState::Terminal => PlannedAction::Finish(st.result),
    }
}

pub open spec fn with_state(st: SessionView, state: RecordState) -> SessionView {
    SessionView { state, ..st }
}

pub open spec fn ended(st: SessionView, result: Result<(), AdbError>) -> SessionView {
    SessionView { state: RecordState::Terminal, result, ..st }
}

/// A session after `ev`; an event that does not belong to the stage leaves
/// the session as it is.
pub open spec fn session_next(st: SessionView, ev: RecordEvent) -> SessionView {
    match (st.state, ev) {
        (RecordState::Idle, RecordEvent::Started) => with_state(st, RecordState::Spawned),
        (RecordState::Idle, RecordEvent::NotStarted) => ended(st, Err(AdbError::Spawn)),
        (RecordState::Spawned, RecordEvent::Armed) => with_state(st, RecordState::InterruptArmed),
        (RecordState::InterruptArmed, RecordEvent::Exited) => with_state(
            st,
            RecordState::Collecting,
        ),
        (RecordState::InterruptArmed, RecordEvent::WaitFailed) => ended(st, Err(AdbError::Wait)),
        (RecordState::Collecting, RecordEvent::PullExited(ok)) => if ok {
            with_state(st, RecordState::Saved)
        } else {
            ended(st, Ok(()))
        },
        (RecordState::Collecting, RecordEvent::NotStarted) => ended(st, Err(AdbError::Spawn)),
        (RecordState::Saved, RecordEvent::Answer(a)) => if deletion_confirmed(a@) {
            with_state(st, RecordState::CleanupPrompted)
        } else {
            ended(st, Ok(()))
        },
        (RecordState::Saved, RecordEvent::InputFailed) => ended(st, Err(AdbError::Input)),
        (RecordState::CleanupPrompted, RecordEvent::RemoveFinished) => with_state(
            st,
            RecordState::CleanupDone,
        ),
        _ => st,
    }
}

/// A recording session of one device.
pub struct RecordingSession {
    device: String,
    filename: String,
    state: RecordState,
    result: Result<(), AdbError>,
}

impl View for RecordingSession {
    type V = SessionView;

    closed spec fn view(&self) -> SessionView {
        SessionView {
            device: self.device@,
            filename: self.filename@,
            state: self.state,
            result: self.result,
        }
    }
}

fn two_args(a: String, b: String) -> (r: Vec<String>)
    ensures
        ids_view(r@) == seq![a@, b@],
{
    let mut r: Vec<String> = Vec::new();
    r.push(a);
    r.push(b);
    assert(ids_view(r@) =~= seq![a@, b@]);
    r
}

fn three_args(a: String, b: String, c: String) -> (r: Vec<String>)
    ensures
        ids_view(r@) == seq![a@, b@, c@],
{
    let mut r: Vec<String> = Vec::new();
    r.push(a);
    r.push(b);
    r.push(c);
    assert(ids_view(r@) =~= seq![a@, b@, c@]);
    r
}

impl RecordingSession {
    /// A session that records the screen of `device` into `filename`.
    pub fn new(device: &str, filename: &str) -> (r: RecordingSession)
        ensures
            r@ == session_start(device@, filename@),
    {
        RecordingSession {
            device: device.to_string(),
            filename: filename.to_string(),
            state: RecordState::Idle,
            result: Ok(()),
        }
    }

    /// The stage the session is in.
    pub fn state(&self) -> (r: RecordState)
        ensures
            r == self@.state,
    {
        self.state
    }

    fn remote(&self) -> (r: String)
        ensures
            r@ == remote_path(self@.filename),
    {
        "/data/local/tmp/".to_string().concat(self.filename.as_str())
    }

    /// What the driver is to do next.
    pub fn action(&self) -> (r: RecordAction)
        ensures
            action_view(r) == planned_action(self@),
    {
        match self.state {
            RecordState::Idle => {
                let cmd = "screenrecord ".to_string().concat(self.remote().as_str());
                let args = two_args("shell".to_string(), cmd);
                RecordAction::Spawn(device_command(self.device.as_str(), args.as_slice()))
            },
            RecordState::Spawned => RecordAction::ArmInterrupt,
            RecordState::InterruptArmed => RecordAction::Wait,
            RecordState::Collecting => {
                let args = three_args("pull".to_string(), self.remote(), self.filename.clone());
                RecordAction::SleepThenPull(
                    GRACE_SECS,
                    device_command(self.device.as_str(), args.as_slice()),
                )
            },
            RecordState::Saved => RecordAction::Prompt(self.filename.clone()),
            RecordState::CleanupPrompted => {
                let args = three_args("shell".to_string(), "rm".to_string(), self.remote());
                RecordAction::Remove(device_command(self.device.as_str(), args.as_slice()))
            },
            RecordState::CleanupDone => RecordAction::Finish(Ok(())),
            RecordState::Terminal => RecordAction::Finish(self.result),
        }
    }

    /// Takes note of what came of the last action.
    pub fn advance(&mut self, ev: RecordEvent)
        ensures
            final(self)@ == session_next(old(self)@, ev),
    {
        match (self.state, ev) {
            (RecordState::Idle, RecordEvent::Started) => {
                self.state = RecordState::Spawned;
            },
            (RecordState::Idle, RecordEvent::NotStarted) => {
                self.state = RecordState::Terminal;
                self.result = Err(AdbError::Spawn);
            },
            (RecordState::Spawned, RecordEvent::Armed) => {
                self.state = RecordState::InterruptArmed;
            },
            (RecordState::InterruptArmed, RecordEvent::Exited) => {
                self.state = RecordState::Collecting;
            },
            (RecordState::InterruptArmed, RecordEvent::WaitFailed) => {
                self.state = RecordState::Terminal;
                self.result = Err(AdbError::Wait);
            },
            (RecordState::Collecting, RecordEvent::PullExited(ok)) => {
                if ok {
                    self.state = RecordState::Saved;
                } else {
                    self.state = RecordState::Terminal;
                    self.result = Ok(());
                }
            },
            (RecordState::Collecting, RecordEvent::NotStarted) => {
                self.state = RecordState::Terminal;
                self.result = Err(AdbError::Spawn);
            },
            (RecordState::Saved, RecordEvent::Answer(a)) => {
                if wants_deletion(a.as_str()) {
                    self.state = RecordState::CleanupPrompted;
                } else {
                    self.state = RecordState::Terminal;
                    self.result = Ok(());
                }
            },
            (RecordState::Saved, RecordEvent::InputFailed) => {
                self.state = RecordState::Terminal;
                self.result = Err(AdbError::Input);
            },
            (RecordState::CleanupPrompted, RecordEvent::RemoveFinished) => {
                self.state = RecordState::CleanupDone;
            },
            _ => {},
        }
    }
}

/// The sessions visited as `events` come in, one after another.
pub open spec fn sessions_after(st: SessionView, events: Seq<RecordEvent>) -> Seq<SessionView>
    decreases events.len(),
{
    if events.len() == 0 {
        Seq::empty()
    } else {
        let nx = session_next(st, events[0]);
        seq![nx] + sessions_after(nx, events.drop_first())
    }
}

proof fn lemma_terminal_stays(st: SessionView, events: Seq<RecordEvent>)
    requires
        st.state == RecordState::Terminal,
    ensures
        sessions_after(st, events).len() == events.len(),
        forall|i: int| 0 <= i < events.len() ==> #[trigger] sessions_after(st, events)[i] == st,
    decreases events.len(),
{
    if events.len() > 0 {
        lemma_terminal_stays(st, events.drop_first());
        assert(session_next(st, events[0]) == st);
        assert forall|i: int| 0 <= i < events.len() implies #[trigger] sessions_after(st, events)[i]
            == st by {
            if i > 0 {
                assert(sessions_after(st, events)[i] == sessions_after(st, events.drop_first())[i
                    - 1]);
            }
        }
    }
}

/// A pull that exits with failure ends the session with success, and
/// whatever comes after, the session only asks to finish with that result:
/// it never asks the user about deletion nor deletes the recording.
pub proof fn lemma_failed_pull_skips_cleanup(st: SessionView, events: Seq<RecordEvent>)
    requires
        st.state == RecordState::Collecting,
    ensures
        session_next(st, RecordEvent::PullExited(false)).state == RecordState::Terminal,
        planned_action(session_next(st, RecordEvent::PullExited(false))) == PlannedAction::Finish(
            Ok(()),
        ),
        forall|i: int|
            0 <= i < events.len() ==> planned_action(
                #[trigger] sessions_after(session_next(st, RecordEvent::PullExited(false)), events)[i],
            ) == PlannedAction::Finish(Ok(())),
{
    lemma_terminal_stays(session_next(st, RecordEvent::PullExited(false)), events);
}

/// The deletion question and the deletion itself only come after a pull
/// that succeeded: a session that newly asks for either was collecting and
/// saw a successful pull, or had been asked the question.
pub proof fn lemma_cleanup_follows_successful_pull(st: SessionView, ev: RecordEvent)
    ensures
        planned_action(session_next(st, ev)) is Prompt ==> (st.state == RecordState::Saved || (
        st.state == RecordState::Collecting && ev == RecordEvent::PullExited(true))),
        planned_action(session_next(st, ev)) is Remove ==> (st.state == RecordState::Saved
            || st.state == RecordState::CleanupPrompted),
{
}

/// The deletion question: an answer that is empty or `y` in either case,
/// around whitespace, deletes the recording; any other keeps it.
pub proof fn lemma_answer_decides_deletion(st: SessionView, answer: String)
    requires
        st.state == RecordState::Saved,
    ensures
        deletion_confirmed(answer@) ==> planned_action(
            session_next(st, RecordEvent::Answer(answer)),
        ) == PlannedAction::Remove(remove_args(st.device, st.filename)),
        !deletion_confirmed(answer@) ==> planned_action(
            session_next(st, RecordEvent::Answer(answer)),
        ) == PlannedAction::Finish(Ok(())),
{
}

/// The session after the first `n` of `events`.
pub open spec fn session_at(st: SessionView, events: Seq<RecordEvent>, n: nat) -> SessionView
    decreases n,
{
    if n == 0 {
        st
    } else {
        session_next(session_at(st, events, (n - 1) as nat), events[n - 1])
    }
}

/// Before the first `n` events, the session asked for the pull and the
/// pull exited with success.
pub open spec fn pulled_before(st: SessionView, events: Seq<RecordEvent>, n: nat) -> bool {
    exists|j: nat|
        j < n && planned_action(#[trigger] session_at(st, events, j)) is SleepThenPull
            && events[j as int] == RecordEvent::PullExited(true)
}

/// Over any run of a session from its start, the deletion question and the
/// deletion are asked for only after the session asked for the pull and
/// the pull exited with success.
pub proof fn lemma_cleanup_only_after_successful_pull(
    device: Seq<char>,
    filename: Seq<char>,
    events: Seq<RecordEvent>,
    n: nat,
)
    requires
        n <= events.len(),
    ensures
        planned_action(session_at(session_start(device, filename), events, n)) is Prompt
            ==> pulled_before(session_start(device, filename), events, n),
        planned_action(session_at(session_start(device, filename), events, n)) is Remove
            ==> pulled_before(session_start(device, filename), events, n),
{
    lemma_done_only_after_successful_pull(device, filename, events, n);
}

proof fn lemma_done_only_after_successful_pull(
    device: Seq<char>,
    filename: Seq<char>,
    events: Seq<RecordEvent>,
    n: nat,
)
    requires
        n <= events.len(),
    ensures
        ({
            let s = session_at(session_start(device, filename), events, n);
            s.state == RecordState::Saved || s.state == RecordState::CleanupPrompted || s.state
                == RecordState::CleanupDone
        }) ==> pulled_before(session_start(device, filename), events, n),
    decreases n,
{
    let st = session_start(device, filename);
    let cur = session_at(st, events, n);
    if n > 0 {
        let m = (n - 1) as nat;
        let prev = session_at(st, events, m);
        lemma_done_only_after_successful_pull(device, filename, events, m);
        if cur.state == RecordState::Saved || cur.state == RecordState::CleanupPrompted
            || cur.state == RecordState::CleanupDone {
            if prev.state == RecordState::Saved || prev.state == RecordState::CleanupPrompted
                || prev.state == RecordState::CleanupDone {
                let j = choose|j: nat|
                    j < m && planned_action(#[trigger] session_at(st, events, j)) is SleepThenPull
                        && events[j as int] == RecordEvent::PullExited(true);
                assert(j < n && planned_action(session_at(st, events, j)) is SleepThenPull
                    && events[j as int] == RecordEvent::PullExited(true));
            } else {
                assert(prev.state == RecordState::Collecting);
                assert(planned_action(session_at(st, events, m)) is SleepThenPull
                    && events[m as int] == RecordEvent::PullExited(true));
            }
        }
    }
}

} // verus!
