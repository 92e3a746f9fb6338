//! The watchdog that follows the target process.
//!
//! Once a second the caller looks the target up by name and hands the outcome
//! to [`watchdog`]. The function keeps the pid it saw last and answers with the
//! message to broadcast, if the outcome is a change: the process appeared (or
//! came back under another pid), or it went away. Seeing the same pid again is
//! no change and gives no message.

use vstd::prelude::*;
use crate::bindings::{initial, Bindings};
use crate::define::{MsgType, Pipe};
use crate::device::Device;
use crate::engine::EngineCall;

verus! {

/// The watched application and the pid under which it was last seen.
#[derive(Debug, Clone)]
pub struct GameGuardian {
    pub package: String,
    pub path: String,
    pid: Option<u32>,
}

/// What a [`GameGuardian`] holds, as plain values.
pub struct Target {
    pub package: Seq<char>,
    pub path: Seq<char>,
    pub pid: Option<u32>,
}

impl View for GameGuardian {
    type V = Target;

    closed spec fn view(&self) -> Target {
        Target { package: self.package@, path: self.path@, pid: self.pid }
    }
}

/// The message that announces that the target runs under `pid`.
pub open spec fn gained(pid: u32) -> Pipe<Option<u32>> {
    Pipe { msg: MsgType::GameGuardianGotPid, payload: Some(pid) }
}

/// The message that announces that the target is gone.
pub open spec fn lost() -> Pipe<Option<u32>> {
    Pipe { msg: MsgType::GameGuardianPidLost, payload: None }
}

/// What one poll makes known: the message for the outcome `found`, given that
/// `current` was seen last, or nothing where the outcome is no change.
pub open spec fn transition(current: Option<u32>, found: Option<u32>) -> Option<Pipe<Option<u32>>> {
    match found {
        Some(pid) => if current == Some(pid) {
            None
        } else {
            Some(gained(pid))
        },
        None => if current is Some {
            Some(lost())
        } else {
            None
        },
    }
}

/// The pid that is kept after the outcomes `polls`, starting from `current`.
pub open spec fn state_after(current: Option<u32>, polls: Seq<Option<u32>>) -> Option<u32> {
    if polls.len() == 0 {
        current
    } else {
        polls.last()
    }
}

/// The messages that the outcomes `polls` give in turn, starting from `current`.
pub open spec fn messages(current: Option<u32>, polls: Seq<Option<u32>>) -> Seq<Pipe<Option<u32>>>
    decreases polls.len(),
{
    if polls.len() == 0 {
        Seq::empty()
    } else {
        let before = messages(current, polls.drop_last());
        match transition(state_after(current, polls.drop_last()), polls.last()) {
            Some(message) => before.push(message),
            None => before,
        }
    }
}

/// The message that reports the outcome `found` when it is a change.
pub open spec fn report(found: Option<u32>) -> Pipe<Option<u32>> {
    match found {
        Some(pid) => gained(pid),
        None => lost(),
    }
}

/// Whether each outcome differs from the one before it in whether the target
/// was found.
pub open spec fn alternating(polls: Seq<Option<u32>>) -> bool {
    forall|i: int| 0 <= i < polls.len() - 1 ==> (#[trigger] polls[i] is Some) != (polls[i + 1] is Some)
}

impl GameGuardian {
    /// The record of the application `package` installed at `path`, last seen
    /// under `pid`.
    pub fn new(package: String, path: String, pid: Option<u32>) -> (gg: Self)
        ensures
            gg@ == (Target { package: package@, path: path@, pid }),
    {
        GameGuardian { package, path, pid }
    }

    /// Watches the application `package` from now on. The path and the pid
    /// that is kept stay as they are, so that the next lookup tells whether the
    /// application that is watched now runs.
    pub fn watch(&mut self, package: String)
        ensures
            final(self)@ == (Target { package: package@, ..old(self)@ }),
    {
        self.package = package;
    }

    /// The pid under which the target was last seen, if it was running then.
    pub fn pid(&self) -> (pid: Option<u32>)
        ensures
            pid == self@.pid,
    {
        self.pid
    }
}

/// Takes the outcome of one lookup of the target and says what to broadcast.
///
/// The outcome becomes the pid that is kept. A message comes back exactly when
/// the outcome is a change: `gained` for a pid that is not the one kept, `lost`
/// when a pid was kept and none is found.
pub fn watchdog(gg: &mut GameGuardian, found: Option<u32>) -> (message: Option<Pipe<Option<u32>>>)
    ensures
        message == transition(old(gg)@.pid, found),
        final(gg)@ == (Target { pid: found, ..old(gg)@ }),
{
    let message = match found {
        Some(pid) => {
            let seen = match gg.pid {
                Some(kept) => kept == pid,
                None => false,
            };
            if seen {
                None
            } else {
                Some(Pipe { msg: MsgType::GameGuardianGotPid, payload: Some(pid) })
            }
        },
        None => match gg.pid {
            Some(_) => Some(Pipe { msg: MsgType::GameGuardianPidLost, payload: None }),
            None => None,
        },
    };
    gg.pid = found;
    message
}

/// Outcomes taken in two runs give the messages of the first run, then those of
/// the second run started from where the first one ended.
pub proof fn lemma_messages_concat(current: Option<u32>, first: Seq<Option<u32>>, second: Seq<Option<u32>>)
    ensures
        messages(current, first + second) == messages(current, first) + messages(
            state_after(current, first),
            second,
        ),
        state_after(current, first + second) == state_after(state_after(current, first), second),
    decreases second.len(),
{
    if second.len() == 0 {
        assert(first + second =~= first);
    } else {
        let all = first + second;
        assert(all.drop_last() =~= first + second.drop_last());
        lemma_messages_concat(current, first, second.drop_last());
        assert(all.last() == second.last());
    }
}

/// A pid that is found again and again is announced once, at its first
/// detection, and not at all where it was the pid already kept.
pub proof fn lemma_repeated_pid_announced_once(current: Option<u32>, pid: u32, n: nat)
    requires
        n >= 1,
    ensures
        messages(current, Seq::new(n, |i: int| Some(pid))) == if current == Some(pid) {
            Seq::<Pipe<Option<u32>>>::empty()
        } else {
            seq![gained(pid)]
        },
    decreases n,
{
    let polls = Seq::new(n, |i: int| Some(pid));
    if n == 1 {
        assert(polls.drop_last() =~= Seq::<Option<u32>>::empty());
        assert(messages(current, polls.drop_last()) =~= Seq::<Pipe<Option<u32>>>::empty());
        assert(Seq::<Pipe<Option<u32>>>::empty().push(gained(pid)) =~= seq![gained(pid)]);
    } else {
        let shorter = Seq::new((n - 1) as nat, |i: int| Some(pid));
        assert(polls.drop_last() =~= shorter);
        lemma_repeated_pid_announced_once(current, pid, (n - 1) as nat);
        assert(state_after(current, shorter) == Some(pid));
    }
}

/// Where the target is found and missed in turn, every outcome after the first
/// is announced: `gained` for each detection, `lost` for each disappearance, in
/// the order of the outcomes. The first outcome is announced where it is a
/// change from the pid kept before.
pub proof fn lemma_alternating_outcomes_all_announced(current: Option<u32>, polls: Seq<Option<u32>>)
    requires
        polls.len() >= 1,
        alternating(polls),
    ensures
        messages(current, polls) == messages(current, polls.take(1)) + Seq::new(
            (polls.len() - 1) as nat,
            |i: int| report(polls[i + 1]),
        ),
        messages(current, polls.take(1)) == match transition(current, polls[0]) {
            Some(message) => seq![message],
            None => Seq::<Pipe<Option<u32>>>::empty(),
        },
    decreases polls.len(),
{
    let head = polls.take(1);
    assert(head.drop_last() =~= Seq::<Option<u32>>::empty());
    assert(messages(current, head.drop_last()) =~= Seq::<Pipe<Option<u32>>>::empty());
    assert(head.last() == polls[0]);
    match transition(current, polls[0]) {
        Some(message) => {
            assert(Seq::<Pipe<Option<u32>>>::empty().push(message) =~= seq![message]);
        },
        None => {},
    }
    if polls.len() == 1 {
        assert(polls.take(1) =~= polls);
        assert(messages(current, polls) + Seq::new(0, |i: int| report(polls[i + 1])) =~= messages(
            current,
            polls,
        ));
    } else {
        let shorter = polls.drop_last();
        assert(alternating(shorter)) by {
            assert forall|i: int| 0 <= i < shorter.len() - 1 implies (#[trigger] shorter[i] is Some) != (
            shorter[i + 1] is Some) by {
                assert((polls[i] is Some) != (polls[i + 1] is Some));
            }
        }
        lemma_alternating_outcomes_all_announced(current, shorter);
        assert(shorter.take(1) =~= polls.take(1));
        let k = polls.len() - 2;
        assert((polls[k] is Some) != (polls[k + 1] is Some));
        assert(state_after(current, shorter) == polls[k]);
        assert(transition(polls[k], polls.last()) == Some(report(polls.last())));
        assert(messages(current, polls) =~= messages(current, polls.take(1)) + Seq::new(
            (polls.len() - 1) as nat,
            |i: int| report(polls[i + 1]),
        ));
    }
}

/// The last message that was given says what is kept: it is `gained` with the
/// pid that is kept, or `lost` where none is kept.
pub proof fn lemma_last_message_reports_state(current: Option<u32>, polls: Seq<Option<u32>>)
    ensures
        messages(current, polls).len() > 0 ==> messages(current, polls).last() == report(
            state_after(current, polls),
        ),
    decreases polls.len(),
{
    if polls.len() > 0 {
        lemma_last_message_reports_state(current, polls.drop_last());
    }
}

/// No message is given twice in a row: after `gained` for a pid comes `lost`
/// or `gained` for another pid, and after `lost` comes `gained`.
pub proof fn lemma_no_message_twice_in_a_row(current: Option<u32>, polls: Seq<Option<u32>>)
    ensures
        forall|i: int|
            0 <= i < messages(current, polls).len() - 1 ==> #[trigger] messages(current, polls)[i]
                != messages(current, polls)[i + 1],
    decreases polls.len(),
{
    if polls.len() > 0 {
        let before = polls.drop_last();
        lemma_no_message_twice_in_a_row(current, before);
        lemma_last_message_reports_state(current, before);
        let earlier = messages(current, before);
        assert forall|i: int| 0 <= i < messages(current, polls).len() - 1 implies #[trigger] messages(
            current,
            polls,
        )[i] != messages(current, polls)[i + 1] by {
            if i < earlier.len() - 1 {
                assert(earlier[i] != earlier[i + 1]);
            }
        }
    }
}

/// Begins the way to a script without source loaded into the process `pid`
/// on `device`, with a handler for its messages, and says the first call to
/// make into the engine.
pub fn invoke(device: &Device, pid: u32) -> (begun: (Bindings, EngineCall))
    ensures
        begun.0@ == initial(device@.handle, pid, Seq::<char>::empty(), true),
        begun.1 == (EngineCall::EnumerateProcesses { device: device@.handle }),
{
    proof {
        reveal_strlit("");
        assert(""@ =~= Seq::<char>::empty());
    }
    Bindings::begin(device, pid, "", true)
}

} // verus!
