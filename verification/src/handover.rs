//! Several recorders that share a home directory, and the lock file between them. What the
//! system's file locks promise is written into the moves; what follows from it and from the
//! recorders' own steps is proved.
use crate::manager::{
    release_actions, RuntimeView, StartActionView, StartEvent, StartPhase, StopAction,
};
use crate::owner::{owner_in, owner_is_read_back, owner_line};
use crate::protocol::ScreenRecordingState;
use crate::status::owner_message;
use vstd::prelude::*;

verus! {

/// A recorder among others: its runtime, how far its attempt to start has come and what it is to
/// do next there, which file it has open to lock, whether it has locked that file, and its
/// process id.
#[verifier::ext_equal]
#[verifier::reject_recursive_types(T)]
#[verifier::reject_recursive_types(C)]
#[verifier::reject_recursive_types(L)]
pub struct Contender<T, C, L> {
    pub runtime: RuntimeView<T, C, L>,
    pub phase: StartPhase,
    pub action: StartActionView,
    pub file: Option<int>,
    pub held: bool,
    pub pid: u32,
}

/// The recorders, and the files that the lock path has led to: the one that it leads to now, what
/// they hold, and those that a stopping recorder keeps locked, before and after it has removed
/// the path.
#[verifier::ext_equal]
#[verifier::reject_recursive_types(T)]
#[verifier::reject_recursive_types(C)]
#[verifier::reject_recursive_types(L)]
pub struct SharedHome<T, C, L> {
    pub contenders: Seq<Contender<T, C, L>>,
    pub linked: Option<int>,
    pub contents: Map<int, Seq<char>>,
    pub retiring: Set<int>,
    pub retired: Set<int>,
}

/// What can happen.
#[verifier::reject_recursive_types(T)]
#[verifier::reject_recursive_types(C)]
#[verifier::reject_recursive_types(L)]
pub enum Move<T, C, L> {
    /// A request makes a recorder begin an attempt to start.
    Begin(int),
    /// A task that waits for the lock begins an attempt to start.
    Round(int),
    /// A recorder's attempt goes on. `file` is the file that was opened, where one was; `text`
    /// is what a failure to write left in it.
    Attempt { who: int, event: StartEvent<L>, file: int, text: Seq<char> },
    /// A recorder whose attempt succeeded has its capture task.
    Captures { who: int, task: T, cancel: C },
    /// A recorder whose attempt found the lock taken has a task that waits for it.
    Waits { who: int, task: T, cancel: C },
    /// A recorder's runtime changes in any way that leaves it its lock and starts no task.
    Change { who: int, runtime: RuntimeView<T, C, L> },
    /// A recorder without a capture task hands out its lock, to stop.
    Retire(int),
    /// The lock path of a stopping recorder is removed, or that fails.
    Remove { file: int, removed: bool },
    /// The lock of a stopping recorder is released.
    Unlock(int),
    /// A recorder's process ends, whatever it was doing; another may take its place.
    Exit { who: int, runtime: RuntimeView<T, C, L> },
}

impl<T, C, L> SharedHome<T, C, L> {
    /// There is such a recorder.
    pub open spec fn has(self, who: int) -> bool {
        0 <= who < self.contenders.len()
    }

    /// The recorder is the owner.
    pub open spec fn owns(self, who: int) -> bool {
        self.has(who) && self.contenders[who].runtime.owner_lock is Some
    }

    /// Someone other than the recorder's own attempt has locked the file.
    pub open spec fn locked_elsewhere(self, who: int, file: int) -> bool {
        ||| self.retiring.contains(file)
        ||| self.retired.contains(file)
        ||| exists|other: int|
            other != who && self.has(other) && (#[trigger] self.contenders[other]).held
                && self.contenders[other].file == Some(file)
    }

    /// No one has the file open or locked.
    pub open spec fn is_fresh(self, file: int) -> bool {
        &&& !self.retiring.contains(file)
        &&& !self.retired.contains(file)
        &&& forall|who: int|
            self.has(who) ==> (#[trigger] self.contenders[who]).file != Some(file)
    }

    /// The event is one that the system can report: opening gives the file that the path leads
    /// to, or makes a new one; a file is locked exactly where no one else has locked it; the
    /// path is seen to lead where it leads; and the owner that is read is the one written.
    pub open spec fn is_truthful(self, who: int, event: StartEvent<L>, file: int) -> bool {
        let contender = self.contenders[who];
        match event {
            StartEvent::LockOpened => match self.linked {
                Some(linked) => file == linked,
                None => self.is_fresh(file),
            },
            StartEvent::Locked => contender.file matches Some(open) && !self.locked_elsewhere(
                who,
                open,
            ),
            StartEvent::Contended => contender.file matches Some(open) && self.locked_elsewhere(
                who,
                open,
            ),
            StartEvent::LockCurrent(pid) => self.linked == contender.file && pid
                == contender.pid,
            StartEvent::LockReplaced => self.linked != contender.file,
            StartEvent::OwnerRead(owner) => owner is Some ==> self.linked is Some && owner
                == owner_in(self.contents[self.linked->0]),
            _ => true,
        }
    }

    /// The recorder at the beginning of an attempt.
    pub open spec fn begun(self, who: int) -> Contender<T, C, L> {
        let (phase, action) = self.contenders[who].runtime.start_begun();
        Contender { phase, action, ..self.contenders[who] }
    }

    /// The recorder after an event of its attempt. A file that is of no further use is closed,
    /// which releases it.
    pub open spec fn attempted(self, who: int, event: StartEvent<L>, file: int) -> Contender<
        T,
        C,
        L,
    > {
        let contender = self.contenders[who];
        let (runtime, phase, action) = contender.runtime.start_stepped(contender.phase, event);
        Contender {
            runtime,
            phase,
            action,
            file: match event {
                StartEvent::LockOpened => Some(file),
                StartEvent::LockReplaced => None,
                StartEvent::Failed(_) => None,
                StartEvent::OwnerRead(_) => None,
                _ => contender.file,
            },
            held: match event {
                StartEvent::Locked => true,
                StartEvent::LockReplaced => false,
                StartEvent::Failed(_) => false,
                _ => contender.held,
            },
            ..contender
        }
    }

    /// What the files hold after an event of an attempt.
    pub open spec fn written(
        self,
        who: int,
        event: StartEvent<L>,
        file: int,
        text: Seq<char>,
    ) -> Map<int, Seq<char>> {
        let contender = self.contenders[who];
        match event {
            StartEvent::LockOpened => if self.linked is None {
                self.contents.insert(file, Seq::empty())
            } else {
                self.contents
            },
            StartEvent::PidWritten(_) => self.contents.insert(
                contender.file->0,
                owner_line(contender.pid),
            ),
            StartEvent::Failed(_) => if contender.phase == StartPhase::WritingPid {
                self.contents.insert(contender.file->0, text)
            } else {
                self.contents
            },
            _ => self.contents,
        }
    }

    /// The move can happen.
    pub open spec fn allows(self, step: Move<T, C, L>) -> bool {
        match step {
            Move::Begin(who) => self.has(who) && self.contenders[who].phase == StartPhase::Over,
            Move::Round(who) => {
                &&& self.has(who)
                &&& self.contenders[who].phase == StartPhase::Over
                &&& self.contenders[who].runtime.round_tries()
            },
            Move::Attempt { who, event, file, text } => {
                &&& self.has(who)
                &&& event.answers(self.contenders[who].phase)
                &&& self.is_truthful(who, event, file)
            },
            Move::Captures { who, task, cancel } => {
                &&& self.owns(who)
                &&& self.contenders[who].phase == StartPhase::Over
                &&& self.contenders[who].action is Start
            },
            Move::Waits { who, task, cancel } => {
                &&& self.has(who)
                &&& self.contenders[who].phase == StartPhase::Over
                &&& self.contenders[who].action is WaitForLock
            },
            Move::Change { who, runtime } => {
                let before = self.contenders[who].runtime;
                &&& self.has(who)
                &&& runtime.owner_lock == before.owner_lock
                &&& runtime.task is None || runtime.task == before.task
                &&& runtime.lock_retry is None || runtime.lock_retry == before.lock_retry
            },
            Move::Retire(who) => {
                &&& self.owns(who)
                &&& self.contenders[who].runtime.task is None
            },
            Move::Remove { file, removed } => self.retiring.contains(file),
            Move::Unlock(file) => self.retired.contains(file),
            Move::Exit { who, runtime } => self.has(who) && runtime.owner_lock is None,
        }
    }

    /// What the move makes of it all.
    pub open spec fn after(self, step: Move<T, C, L>) -> SharedHome<T, C, L> {
        match step {
            Move::Begin(who) => self.with(who, self.begun(who)),
            Move::Round(who) => self.with(who, self.begun(who)),
            Move::Attempt { who, event, file, text } => SharedHome {
                linked: if event is LockOpened {
                    Some(file)
                } else {
                    self.linked
                },
                contents: self.written(who, event, file, text),
                ..self.with(who, self.attempted(who, event, file))
            },
            Move::Captures { who, task, cancel } => self.with(
                who,
                Contender {
                    runtime: RuntimeView {
                        task: Some(task),
                        cancel: Some(cancel),
                        ..self.contenders[who].runtime
                    },
                    action: StartActionView::GiveUp,
                    ..self.contenders[who]
                },
            ),
            Move::Waits { who, task, cancel } => self.with(
                who,
                Contender {
                    runtime: RuntimeView {
                        lock_retry: Some(task),
                        lock_retry_cancel: Some(cancel),
                        ..self.contenders[who].runtime
                    },
                    action: StartActionView::GiveUp,
                    ..self.contenders[who]
                },
            ),
            Move::Change { who, runtime } => self.with(
                who,
                Contender { runtime, ..self.contenders[who] },
            ),
            Move::Retire(who) => SharedHome {
                retiring: self.retiring.insert(self.contenders[who].file->0),
                ..self.with(
                    who,
                    Contender {
                        runtime: self.contenders[who].runtime.lock_taken(),
                        file: None,
                        held: false,
                        ..self.contenders[who]
                    },
                )
            },
            Move::Remove { file, removed } => SharedHome {
                linked: if removed {
                    None
                } else {
                    self.linked
                },
                retiring: self.retiring.remove(file),
                retired: self.retired.insert(file),
                ..self
            },
            Move::Unlock(file) => SharedHome { retired: self.retired.remove(file), ..self },
            Move::Exit { who, runtime } => self.with(
                who,
                Contender {
                    runtime,
                    phase: StartPhase::Over,
                    action: StartActionView::GiveUp,
                    file: None,
                    held: false,
                    ..self.contenders[who]
                },
            ),
        }
    }

    pub open spec fn with(self, who: int, contender: Contender<T, C, L>) -> SharedHome<T, C, L> {
        SharedHome { contenders: self.contenders.update(who, contender), ..self }
    }

    /// A recorder agrees with the files: the owner has locked the file that the path leads to,
    /// which holds its process id; so has, but for the id, one that is about to write it; one
    /// that has yet to look has locked some file; no other has.
    pub open spec fn agrees(self, contender: Contender<T, C, L>) -> bool {
        &&& contender.held ==> contender.file is Some
        &&& contender.runtime.owner_lock is Some ==> {
            &&& contender.phase == StartPhase::Over
            &&& contender.held
            &&& self.linked == contender.file
            &&& self.contents[contender.file->0] == owner_line(contender.pid)
        }
        &&& match contender.phase {
            StartPhase::CheckingLock => contender.held,
            StartPhase::WritingPid => contender.held && self.linked == contender.file,
            StartPhase::Over => contender.held ==> contender.runtime.owner_lock is Some,
            _ => !contender.held,
        }
    }

    /// What holds whatever has happened: every recorder agrees with the files, no two have
    /// locked the same one, and a recorder that is about to remove the path has locked the file
    /// that it leads to.
    pub open spec fn consistent(self) -> bool {
        &&& forall|who: int| self.has(who) ==> self.agrees(#[trigger] self.contenders[who])
        &&& forall|a: int, b: int|
            self.has(a) && self.has(b) && a != b && (#[trigger] self.contenders[a]).held && (
            #[trigger] self.contenders[b]).held ==> self.contenders[a].file
                != self.contenders[b].file
        &&& forall|who: int|
            self.has(who) && (#[trigger] self.contenders[who]).held ==> !self.retiring.contains(
                self.contenders[who].file->0,
            ) && !self.retired.contains(self.contenders[who].file->0)
        &&& forall|file: int| #[trigger]
            self.retiring.contains(file) ==> self.linked == Some(file) && !self.retired.contains(
                file,
            )
    }

    /// The steps can happen, one after the other.
    #[verifier::opaque]
    pub open spec fn can_run(self, steps: Seq<Move<T, C, L>>) -> bool
        decreases steps.len(),
    {
        steps.len() == 0 || (self.can_run(steps.drop_last()) && self.run(
            steps.drop_last(),
        ).allows(steps.last()))
    }

    /// What the steps make of it all, one after the other.
    #[verifier::opaque]
    pub open spec fn run(self, steps: Seq<Move<T, C, L>>) -> SharedHome<T, C, L>
        decreases steps.len(),
    {
        if steps.len() == 0 {
            self
        } else {
            self.run(steps.drop_last()).after(steps.last())
        }
    }

    /// The recorder has no attempt to start under way, and none that a task is to follow.
    pub open spec fn settled(self, who: int) -> bool {
        &&& self.has(who)
        &&& self.contenders[who].phase == StartPhase::Over
        &&& !(self.contenders[who].action is Start)
        &&& !(self.contenders[who].action is WaitForLock)
    }

    /// The recorder has stopped: nothing runs there, and it is not the owner.
    pub open spec fn stopped(self, who: int) -> bool {
        &&& self.settled(who)
        &&& self.contenders[who].runtime.idle()
        &&& self.contenders[who].runtime.owner_lock is None
    }

    /// No recorder but perhaps `who` has locked a file.
    pub open spec fn is_free_but_for(self, who: int) -> bool {
        &&& self.retiring == Set::<int>::empty()
        &&& self.retired == Set::<int>::empty()
        &&& forall|other: int|
            self.has(other) && other != who ==> !(#[trigger] self.contenders[other]).held
    }

    /// Opening the lock path gives the file: the path leads to it, or leads nowhere and the file
    /// is new.
    pub open spec fn opens(self, file: int) -> bool {
        match self.linked {
            Some(linked) => file == linked,
            None => self.is_fresh(file),
        }
    }

    /// What a stop does, in this order: the tasks are handed out; the owner hands out its lock;
    /// and what is to be cleaned up is cleaned up, of which the lock file alone concerns the
    /// others. `removed` says whether it could be removed.
    pub open spec fn stop_moves(self, who: int, removed: bool) -> Seq<Move<T, C, L>> {
        let contender = self.contenders[who];
        let taken = seq![Move::Change { who, runtime: contender.runtime.tasks_taken() }];
        let handed_out = if contender.runtime.owner_lock is Some {
            taken.push(Move::Retire(who))
        } else {
            taken
        };
        handed_out + release_moves(
            release_actions(contender.runtime.owner_lock),
            contender.file->0,
            removed,
        )
    }

    /// What a task that waits for the lock does when no one has locked the file that it opens.
    pub open spec fn takeover_moves(self, who: int, file: int, lock: L) -> Seq<Move<T, C, L>> {
        let text = Seq::<char>::empty();
        let pid = self.contenders[who].pid;
        seq![
            Move::Round(who),
            Move::Attempt { who, event: StartEvent::DirectoryCreated, file, text },
            Move::Attempt { who, event: StartEvent::LockOpened, file, text },
            Move::Attempt { who, event: StartEvent::Locked, file, text },
            Move::Attempt { who, event: StartEvent::LockCurrent(pid), file, text },
            Move::Attempt { who, event: StartEvent::PidWritten(lock), file, text },
        ]
    }
}

/// What the actions that clean up after an owner do to the lock file, in their order.
pub open spec fn release_moves<T, C, L>(
    actions: Seq<StopAction>,
    file: int,
    removed: bool,
) -> Seq<Move<T, C, L>>
    decreases actions.len(),
{
    if actions.len() == 0 {
        Seq::empty()
    } else {
        let before = release_moves(actions.drop_last(), file, removed);
        match actions.last() {
            StopAction::RemoveLockFile => before.push(Move::Remove { file, removed }),
            StopAction::ReleaseLock => before.push(Move::Unlock(file)),
            _ => before,
        }
    }
}

/// The step is a request that makes the recorder start, or another process in its place.
pub open spec fn restarts<T, C, L>(step: Move<T, C, L>, who: int) -> bool {
    match step {
        Move::Begin(other) => other == who,
        Move::Exit { who: other, .. } => other == who,
        _ => false,
    }
}

// ---------------------------------------------------------------------------------------
// Laws
// ---------------------------------------------------------------------------------------

/// Where no recorder holds or wants the lock, all is consistent.
pub proof fn unlocked_home_is_consistent<T, C, L>(home: SharedHome<T, C, L>)
    requires
        home.retiring == Set::<int>::empty(),
        forall|who: int|
            home.has(who) ==> !(#[trigger] home.contenders[who]).held
                && home.contenders[who].phase == StartPhase::Over
                && home.contenders[who].runtime.owner_lock is None,
    ensures
        home.consistent(),
{
}

proof fn lemma_attempt_keeps_consistency<T, C, L>(
    home: SharedHome<T, C, L>,
    who: int,
    event: StartEvent<L>,
    file: int,
    text: Seq<char>,
)
    requires
        home.consistent(),
        home.allows(Move::Attempt { who, event, file, text }),
    ensures
        home.after(Move::Attempt { who, event, file, text }).consistent(),
{
    let after = home.after(Move::Attempt { who, event, file, text });
    let contender = home.contenders[who];
    assert(home.agrees(contender));
    assert forall|other: int| after.has(other) implies after.agrees(
        #[trigger] after.contenders[other],
    ) by {
        assert(home.agrees(home.contenders[other]));
        if other != who && home.contenders[other].held && contender.held {
            assert(home.contenders[other].file != contender.file);
        }
    }
    assert forall|a: int, b: int|
        after.has(a) && after.has(b) && a != b && (#[trigger] after.contenders[a]).held && (
        #[trigger] after.contenders[b]).held implies after.contenders[a].file
        != after.contenders[b].file by {
        assert(home.agrees(home.contenders[a]) && home.agrees(home.contenders[b]));
        if event is Locked && a == who {
            assert(home.contenders[b].held);
        } else if event is Locked && b == who {
            assert(home.contenders[a].held);
        } else {
            assert(home.contenders[a].held && home.contenders[b].held);
        }
    }
    assert forall|other: int|
        after.has(other) && (#[trigger] after.contenders[other]).held implies
        !after.retiring.contains(after.contenders[other].file->0)
        && !after.retired.contains(after.contenders[other].file->0) by {
        assert(home.agrees(home.contenders[other]));
        if !(event is Locked && other == who) {
            assert(home.contenders[other].held);
        }
    }
}

proof fn lemma_retirement_keeps_consistency<T, C, L>(home: SharedHome<T, C, L>, who: int)
    requires
        home.consistent(),
        home.allows(Move::Retire(who)),
    ensures
        home.after(Move::Retire(who)).consistent(),
{
    let after = home.after(Move::Retire(who));
    let contender = home.contenders[who];
    assert(home.agrees(contender));
    assert forall|other: int| after.has(other) implies after.agrees(
        #[trigger] after.contenders[other],
    ) by {
        assert(home.agrees(home.contenders[other]));
    }
    assert forall|other: int|
        after.has(other) && (#[trigger] after.contenders[other]).held implies
        !after.retiring.contains(after.contenders[other].file->0)
        && !after.retired.contains(after.contenders[other].file->0) by {
        assert(home.contenders[other].held && other != who);
        assert(home.agrees(home.contenders[other]));
        assert(home.contenders[other].file != contender.file);
    }
}

/// Whatever happens, all stays consistent.
pub proof fn moves_keep_consistency<T, C, L>(home: SharedHome<T, C, L>, step: Move<T, C, L>)
    requires
        home.consistent(),
        home.allows(step),
    ensures
        home.after(step).consistent(),
{
    let after = home.after(step);
    match step {
        Move::Attempt { who, event, file, text } => {
            lemma_attempt_keeps_consistency(home, who, event, file, text);
        },
        Move::Retire(who) => {
            lemma_retirement_keeps_consistency(home, who);
        },
        Move::Remove { file, removed } => {
            assert forall|other: int| after.has(other) implies after.agrees(
                #[trigger] after.contenders[other],
            ) by {
                assert(home.agrees(home.contenders[other]));
                if home.contenders[other].held {
                    assert(!home.retiring.contains(home.contenders[other].file->0));
                }
            }
            assert forall|other: int|
                after.has(other) && (#[trigger] after.contenders[other]).held implies
                !after.retiring.contains(after.contenders[other].file->0)
                && !after.retired.contains(after.contenders[other].file->0) by {
                assert(home.contenders[other].held);
            }
        },
        _ => {
            assert forall|other: int| after.has(other) implies after.agrees(
                #[trigger] after.contenders[other],
            ) by {
                assert(home.agrees(home.contenders[other]));
            }
            assert forall|a: int, b: int|
                after.has(a) && after.has(b) && a != b && (#[trigger] after.contenders[a]).held && (
                #[trigger] after.contenders[b]).held implies after.contenders[a].file
                != after.contenders[b].file by {
                assert(home.contenders[a].held && home.contenders[b].held);
            }
            assert forall|other: int|
                after.has(other) && (#[trigger] after.contenders[other]).held implies
                !after.retiring.contains(after.contenders[other].file->0)
                && !after.retired.contains(after.contenders[other].file->0) by {
                assert(home.contenders[other].held);
            }
        },
    }
}

/// At most one recorder is the owner, also while one hands over to another.
pub proof fn one_owner_at_a_time<T, C, L>(home: SharedHome<T, C, L>, a: int, b: int)
    requires
        home.consistent(),
        home.owns(a),
        home.owns(b),
    ensures
        a == b,
{
    assert(home.agrees(home.contenders[a]));
    assert(home.agrees(home.contenders[b]));
}

/// While one recorder is the owner, no other becomes one: no attempt of it leads to a start, the
/// file of the owner cannot be locked, and who finds it locked reports an error that blames the
/// owner, by its process id where that could be read.
pub proof fn contenders_stay_out_while_owned<T, C, L>(
    home: SharedHome<T, C, L>,
    owner: int,
    who: int,
    event: StartEvent<L>,
    file: int,
)
    requires
        home.consistent(),
        home.owns(owner),
        home.has(who),
        who != owner,
        event.answers(home.contenders[who].phase),
        home.is_truthful(who, event, file),
    ensures
        ({
            let contender = home.contenders[who];
            let (runtime, phase, action) = contender.runtime.start_stepped(
                contender.phase,
                event,
            );
            &&& !(contender.runtime.start_begun().1 is Start)
            &&& !(action is Start)
            &&& runtime.owner_lock is None
            &&& contender.phase == StartPhase::Locking && contender.file == home.linked ==> !(
            event is Locked)
            &&& event matches StartEvent::OwnerRead(read) ==> {
                &&& read is None || read == Some(home.contenders[owner].pid)
                &&& runtime.status.state == ScreenRecordingState::Error
                &&& runtime.status.captured_display_count == 0
                &&& runtime.status.last_error == Some(owner_message(read))
            }
        }),
{
    let contender = home.contenders[who];
    let holder = home.contenders[owner];
    assert(home.agrees(contender));
    assert(home.agrees(holder));
    if contender.runtime.owner_lock is Some {
        one_owner_at_a_time(home, owner, who);
    }
    owner_is_read_back(holder.pid);
}

proof fn lemma_run_none<T, C, L>(home: SharedHome<T, C, L>)
    ensures
        home.can_run(Seq::empty()),
        home.run(Seq::empty()) == home,
{
    reveal(SharedHome::can_run);
    reveal(SharedHome::run);
}

proof fn lemma_run_push<T, C, L>(
    home: SharedHome<T, C, L>,
    steps: Seq<Move<T, C, L>>,
    step: Move<T, C, L>,
)
    ensures
        home.can_run(steps.push(step)) == (home.can_run(steps) && home.run(steps).allows(step)),
        home.run(steps.push(step)) == home.run(steps).after(step),
{
    reveal(SharedHome::can_run);
    reveal(SharedHome::run);
    assert(steps.push(step).drop_last() =~= steps);
}

/// Whatever happens, one thing after the other, all stays consistent.
pub proof fn runs_keep_consistency<T, C, L>(
    home: SharedHome<T, C, L>,
    steps: Seq<Move<T, C, L>>,
)
    requires
        home.consistent(),
        home.can_run(steps),
    ensures
        home.run(steps).consistent(),
    decreases steps.len(),
{
    reveal(SharedHome::can_run);
    reveal(SharedHome::run);
    if steps.len() > 0 {
        runs_keep_consistency(home, steps.drop_last());
        moves_keep_consistency(home.run(steps.drop_last()), steps.last());
    }
}

/// A recorder that has stopped never becomes the owner, whatever happens, until a request makes
/// it start again or another process takes its place.
pub proof fn stopped_recorder_stays_out<T, C, L>(
    home: SharedHome<T, C, L>,
    who: int,
    steps: Seq<Move<T, C, L>>,
)
    requires
        home.stopped(who),
        home.can_run(steps),
        forall|i: int| 0 <= i < steps.len() ==> !restarts(#[trigger] steps[i], who),
    ensures
        home.run(steps).stopped(who),
        !home.run(steps).owns(who),
    decreases steps.len(),
{
    reveal(SharedHome::can_run);
    reveal(SharedHome::run);
    if steps.len() > 0 {
        let front = steps.drop_last();
        assert forall|i: int| 0 <= i < front.len() implies !restarts(#[trigger] front[i], who) by {
            assert(front[i] == steps[i]);
        }
        stopped_recorder_stays_out(home, who, front);
        assert(!restarts(steps[steps.len() - 1], who));
    }
}

/// A contender that stops leaves the lock file, what it holds and who has locked it alone, and
/// every other recorder.
pub proof fn stopping_contender_leaves_all_alone<T, C, L>(
    home: SharedHome<T, C, L>,
    who: int,
    removed: bool,
)
    requires
        home.settled(who),
        home.contenders[who].runtime.owner_lock is None,
    ensures
        ({
            let steps = home.stop_moves(who, removed);
            let after = home.run(steps);
            &&& home.can_run(steps)
            &&& after.stopped(who)
            &&& after == home.with(
                who,
                Contender {
                    runtime: home.contenders[who].runtime.tasks_taken(),
                    ..home.contenders[who]
                },
            )
        }),
{
    let runtime = home.contenders[who].runtime;
    let taken = Move::Change { who, runtime: runtime.tasks_taken() };
    let none = Seq::<Move<T, C, L>>::empty();
    assert(home.stop_moves(who, removed) =~= none.push(taken));
    lemma_run_none(home);
    lemma_run_push(home, none, taken);
}

/// An owner that stops releases its lock as its plan says: the lock path is removed while the
/// file is still locked, then the file is unlocked; the other way about cannot be. Afterwards no
/// one has locked the file.
pub proof fn stopping_owner_removes_then_unlocks<T, C, L>(
    home: SharedHome<T, C, L>,
    who: int,
    removed: bool,
)
    requires
        home.consistent(),
        home.owns(who),
        home.settled(who),
    ensures
        ({
            let file = home.contenders[who].file->0;
            let actions = release_actions(home.contenders[who].runtime.owner_lock);
            let steps = home.stop_moves(who, removed);
            let handed_out = home.run(steps.take(2));
            let after = home.run(steps);
            &&& actions[actions.len() - 2] == StopAction::RemoveLockFile
            &&& actions[actions.len() - 1] == StopAction::ReleaseLock
            &&& steps.len() == 4
            &&& steps[0] is Change
            &&& steps[1] == Move::<T, C, L>::Retire(who)
            &&& steps[2] == Move::<T, C, L>::Remove { file, removed }
            &&& steps[3] == Move::<T, C, L>::Unlock(file)
            &&& home.can_run(steps)
            &&& !handed_out.allows(Move::Unlock(file))
            &&& after.consistent()
            &&& after.stopped(who)
            &&& after.linked == (if removed {
                None
            } else {
                home.linked
            })
            &&& after.contents == home.contents
            &&& after.retiring == home.retiring
            &&& after.retired == home.retired
            &&& !after.locked_elsewhere(who, file)
            &&& after.contenders == home.contenders.update(who, after.contenders[who])
            &&& after.contenders[who].file is None
        }),
{
    let file = home.contenders[who].file->0;
    assert(home.agrees(home.contenders[who]));
    lemma_owner_stop(home, who, removed);
    let after = home.run(home.stop_moves(who, removed));
    assert forall|other: int| other != who && after.has(other) implies !((
    #[trigger] after.contenders[other]).held && after.contenders[other].file == Some(file)) by {
        assert(after.contenders[other] == home.contenders[other]);
        assert(home.contenders[who].held);
    }
    runs_keep_consistency(home, home.stop_moves(who, removed));
}

/// The steps of an owner's stop, and what they come to.
proof fn lemma_owner_stop<T, C, L>(home: SharedHome<T, C, L>, who: int, removed: bool)
    requires
        home.settled(who),
        home.owns(who),
        home.contenders[who].file is Some,
        !home.retiring.contains(home.contenders[who].file->0),
        !home.retired.contains(home.contenders[who].file->0),
    ensures
        ({
            let contender = home.contenders[who];
            let file = contender.file->0;
            let steps = home.stop_moves(who, removed);
            &&& steps == seq![
                Move::Change { who, runtime: contender.runtime.tasks_taken() },
                Move::Retire(who),
                Move::Remove { file, removed },
                Move::Unlock(file),
            ]
            &&& home.can_run(steps)
            &&& !home.run(steps.take(2)).allows(Move::Unlock(file))
            &&& home.run(steps) == (SharedHome {
                linked: if removed {
                    None
                } else {
                    home.linked
                },
                ..home.with(
                    who,
                    Contender {
                        runtime: contender.runtime.tasks_taken().lock_taken(),
                        file: None,
                        held: false,
                        ..contender
                    },
                )
            })
        }),
{
    let contender = home.contenders[who];
    let file = contender.file->0;
    let none = Seq::<Move<T, C, L>>::empty();
    let s1 = none.push(Move::Change { who, runtime: contender.runtime.tasks_taken() });
    let s2 = s1.push(Move::Retire(who));
    let s3 = s2.push(Move::Remove { file, removed });
    let s4 = s3.push(Move::Unlock(file));
    lemma_release_moves::<T, C, L>(contender.runtime.owner_lock->0, file, removed);
    assert(home.stop_moves(who, removed) =~= s4);
    assert(s4.take(2) =~= s2);
    lemma_run_none(home);
    lemma_run_push(home, none, s1.last());
    lemma_run_push(home, s1, s2.last());
    lemma_run_push(home, s2, s3.last());
    lemma_run_push(home, s3, s4.last());
    let h1 = home.run(s1);
    assert(h1 =~= home.with(
        who,
        Contender { runtime: contender.runtime.tasks_taken(), ..contender },
    ));
    let gone = Contender {
        runtime: contender.runtime.tasks_taken().lock_taken(),
        file: None,
        held: false,
        ..contender
    };
    let h2 = home.run(s2);
    assert(h2 =~= (SharedHome {
        retiring: home.retiring.insert(file),
        ..home.with(who, gone)
    }));
    let linked = if removed {
        None
    } else {
        home.linked
    };
    let h3 = home.run(s3);
    assert(h3.retiring =~= home.retiring);
    assert(h3 =~= (SharedHome {
        linked,
        retired: home.retired.insert(file),
        ..home.with(who, gone)
    }));
    assert(home.run(s4).retired =~= home.retired);
    assert(home.run(s4) =~= (SharedHome { linked, ..home.with(who, gone) }));
}

proof fn lemma_release_moves<T, C, L>(lock: L, file: int, removed: bool)
    ensures
        release_moves::<T, C, L>(release_actions(Some(lock)), file, removed) =~= seq![
            Move::Remove { file, removed },
            Move::Unlock(file),
        ],
{
    let a4 = release_actions(Some(lock));
    let a3 = a4.drop_last();
    let a2 = a3.drop_last();
    let a1 = a2.drop_last();
    let a0 = a1.drop_last();
    assert(a4.last() == StopAction::ReleaseLock);
    assert(a3.last() == StopAction::RemoveLockFile);
    assert(a2.last() == StopAction::ForgetStreams);
    assert(a1.last() == StopAction::PurgeStorage);
    assert(a0.len() == 0);
    assert(release_moves::<T, C, L>(a0, file, removed) == Seq::<Move<T, C, L>>::empty());
    assert(release_moves::<T, C, L>(a1, file, removed) == Seq::<Move<T, C, L>>::empty());
    let none = Seq::<Move<T, C, L>>::empty();
    let first = none.push(Move::Remove { file, removed });
    assert(release_moves::<T, C, L>(a2, file, removed) == none);
    assert(release_moves::<T, C, L>(a3, file, removed) == first);
    assert(release_moves::<T, C, L>(a4, file, removed) == first.push(Move::Unlock(file)));
}

/// Once no one has locked a file, a contender that waits for the lock opens the lock file,
/// whether it is still there or not, and becomes the owner, ready to capture. It cannot find the
/// file locked or replaced.
pub proof fn waiting_contender_takes_a_free_lock<T, C, L>(
    home: SharedHome<T, C, L>,
    who: int,
    file: int,
    lock: L,
)
    requires
        home.consistent(),
        home.settled(who),
        home.contenders[who].runtime.round_tries(),
        home.is_free_but_for(who),
        !home.contenders[who].held,
        home.opens(file),
    ensures
        ({
            let steps = home.takeover_moves(who, file, lock);
            let opened = home.run(steps.take(3));
            let locked = home.run(steps.take(4));
            let after = home.run(steps);
            let runtime = home.contenders[who].runtime;
            &&& home.can_run(steps)
            &&& !opened.is_truthful(who, StartEvent::Contended, file)
            &&& !locked.is_truthful(who, StartEvent::LockReplaced, file)
            &&& after.consistent()
            &&& after.owns(who)
            &&& after.contenders[who].runtime == runtime.owning(lock)
            &&& after.contenders[who].action is Start
            &&& after.linked == Some(file)
            &&& after.contents[file] == owner_line(home.contenders[who].pid)
            &&& after.contenders.len() == home.contenders.len()
            &&& forall|other: int|
                home.has(other) && other != who ==> (#[trigger] after.contenders[other])
                    == home.contenders[other] && !after.owns(other)
        }),
{
    assert(home.agrees(home.contenders[who]));
    let steps = home.takeover_moves(who, file, lock);
    lemma_takeover(home, who, file, lock);
    runs_keep_consistency(home, steps);
    let after = home.run(steps);
    assert forall|other: int| home.has(other) && other != who implies (
    #[trigger] after.contenders[other]) == home.contenders[other] && !after.owns(other) by {
        if after.owns(other) {
            one_owner_at_a_time(after, who, other);
        }
    }
}

/// A contender has opened the lock file.
spec fn lock_opened<T, C, L>(home: SharedHome<T, C, L>, who: int, file: int) -> SharedHome<
    T,
    C,
    L,
> {
    SharedHome {
        linked: Some(file),
        contents: if home.linked is None {
            home.contents.insert(file, Seq::empty())
        } else {
            home.contents
        },
        ..home.with(
            who,
            Contender {
                phase: StartPhase::Locking,
                action: StartActionView::TryLock,
                file: Some(file),
                ..home.contenders[who]
            },
        )
    }
}

proof fn lemma_lock_opened<T, C, L>(home: SharedHome<T, C, L>, who: int, file: int, lock: L)
    requires
        home.settled(who),
        home.contenders[who].runtime.round_tries(),
        home.contenders[who].runtime.owner_lock is None,
        home.opens(file),
    ensures
        home.can_run(home.takeover_moves(who, file, lock).take(3)),
        home.run(home.takeover_moves(who, file, lock).take(3)) == lock_opened(home, who, file),
{
    let text = Seq::<char>::empty();
    let none = Seq::<Move<T, C, L>>::empty();
    let s1 = none.push(Move::Round(who));
    let s2 = s1.push(Move::Attempt { who, event: StartEvent::DirectoryCreated, file, text });
    let s3 = s2.push(Move::Attempt { who, event: StartEvent::LockOpened, file, text });
    assert(home.takeover_moves(who, file, lock).take(3) =~= s3);
    lemma_run_none(home);
    lemma_run_push(home, none, s1.last());
    lemma_run_push(home, s1, s2.last());
    lemma_run_push(home, s2, s3.last());
    let h2 = home.run(s2);
    let ready = Contender {
        phase: StartPhase::OpeningLock,
        action: StartActionView::OpenLock,
        ..home.contenders[who]
    };
    assert(h2 =~= home.with(who, ready));
    if home.linked is None {
        assert forall|other: int| h2.has(other) implies (#[trigger] h2.contenders[other]).file
            != Some(file) by {
            assert(home.contenders[other].file != Some(file));
        }
    }
    assert(home.run(s3) =~= lock_opened(home, who, file));
}

proof fn lemma_takeover<T, C, L>(home: SharedHome<T, C, L>, who: int, file: int, lock: L)
    requires
        home.settled(who),
        home.contenders[who].runtime.round_tries(),
        home.contenders[who].runtime.owner_lock is None,
        home.is_free_but_for(who),
        home.opens(file),
    ensures
        ({
            let steps = home.takeover_moves(who, file, lock);
            let opened = home.run(steps.take(3));
            let locked = home.run(steps.take(4));
            let after = home.run(steps);
            let contender = home.contenders[who];
            &&& home.can_run(steps)
            &&& !opened.is_truthful(who, StartEvent::Contended, file)
            &&& !locked.is_truthful(who, StartEvent::LockReplaced, file)
            &&& after.contenders == home.contenders.update(
                who,
                Contender {
                    runtime: contender.runtime.owning(lock),
                    phase: StartPhase::Over,
                    action: StartActionView::Start,
                    file: Some(file),
                    held: true,
                    ..contender
                },
            )
            &&& after.linked == Some(file)
            &&& after.contents[file] == owner_line(contender.pid)
        }),
{
    let text = Seq::<char>::empty();
    let contender = home.contenders[who];
    let moves = home.takeover_moves(who, file, lock);
    lemma_lock_opened(home, who, file, lock);
    let s3 = moves.take(3);
    let s4 = s3.push(Move::Attempt { who, event: StartEvent::Locked, file, text });
    let s5 = s4.push(
        Move::Attempt { who, event: StartEvent::LockCurrent(contender.pid), file, text },
    );
    let s6 = s5.push(Move::Attempt { who, event: StartEvent::PidWritten(lock), file, text });
    assert(moves.take(4) =~= s4);
    assert(moves =~= s6);
    lemma_run_push(home, s3, s4.last());
    lemma_run_push(home, s4, s5.last());
    lemma_run_push(home, s5, s6.last());
    let h3 = lock_opened(home, who, file);
    assert(!h3.locked_elsewhere(who, file)) by {
        assert forall|other: int| other != who && h3.has(other) implies !(
        #[trigger] h3.contenders[other]).held by {
            assert(h3.contenders[other] == home.contenders[other]);
        }
    }
    let checking = Contender {
        phase: StartPhase::CheckingLock,
        action: StartActionView::CheckLock,
        file: Some(file),
        held: true,
        ..contender
    };
    assert(home.run(s4) =~= h3.with(who, checking));
    let writing = Contender {
        phase: StartPhase::WritingPid,
        action: StartActionView::WriteOwnerPid(owner_line(contender.pid)),
        ..checking
    };
    assert(home.run(s5) =~= h3.with(who, writing));
    assert(home.run(s6).contenders =~= home.contenders.update(
        who,
        Contender {
            runtime: contender.runtime.owning(lock),
            phase: StartPhase::Over,
            action: StartActionView::Start,
            ..writing
        },
    ));
}

/// A contender stops while another recorder is the owner; then the owner stops. A third one that
/// waits for the lock becomes the owner, and the one that stopped first never does, whatever
/// happens later, until a request makes it start again or another process takes its place.
pub proof fn lock_passes_over_a_stopped_contender<T, C, L>(
    home: SharedHome<T, C, L>,
    owner: int,
    transient: int,
    who: int,
    removed: bool,
    file: int,
    lock: L,
    later: Seq<Move<T, C, L>>,
)
    requires
        home.consistent(),
        home.owns(owner),
        home.settled(owner),
        home.settled(transient),
        home.settled(who),
        owner != transient,
        owner != who,
        transient != who,
        home.contenders[who].runtime.round_tries(),
        home.is_free_but_for(owner),
        removed ==> home.is_fresh(file),
        !removed ==> home.linked == Some(file),
        forall|i: int| 0 <= i < later.len() ==> !restarts(#[trigger] later[i], transient),
    ensures
        ({
            let alone = home.run(home.stop_moves(transient, removed));
            let released = alone.run(alone.stop_moves(owner, removed));
            let taken = released.run(released.takeover_moves(who, file, lock));
            &&& home.can_run(home.stop_moves(transient, removed))
            &&& alone.owns(owner)
            &&& alone.linked == home.linked && alone.contents == home.contents
            &&& alone.can_run(alone.stop_moves(owner, removed))
            &&& released.can_run(released.takeover_moves(who, file, lock))
            &&& taken.owns(who)
            &&& taken.contenders[who].action is Start
            &&& taken.stopped(transient)
            &&& taken.stopped(owner)
            &&& taken.can_run(later) ==> !taken.run(later).owns(transient)
        }),
{
    lemma_only_owner_left(home, owner, transient, removed, file);
    let alone = home.run(home.stop_moves(transient, removed));
    lemma_released(alone, owner, removed, file);
    let released = alone.run(alone.stop_moves(owner, removed));
    assert(released.contenders[who] == home.contenders[who]);
    assert(released.contenders[transient] == alone.contenders[transient]);
    lemma_taken(released, owner, transient, who, file, lock);
    let taken = released.run(released.takeover_moves(who, file, lock));
    if taken.can_run(later) {
        stopped_recorder_stays_out(taken, transient, later);
    }
}

/// Where a waiting contender takes a free lock, those that have stopped stay so.
proof fn lemma_taken<T, C, L>(
    home: SharedHome<T, C, L>,
    owner: int,
    transient: int,
    who: int,
    file: int,
    lock: L,
)
    requires
        home.consistent(),
        home.stopped(owner),
        home.stopped(transient),
        home.settled(who),
        owner != who,
        transient != who,
        home.contenders[who].runtime.round_tries(),
        home.is_free_but_for(owner),
        !home.contenders[owner].held,
        home.opens(file),
    ensures
        ({
            let steps = home.takeover_moves(who, file, lock);
            let taken = home.run(steps);
            &&& home.can_run(steps)
            &&& taken.owns(who)
            &&& taken.contenders[who].action is Start
            &&& taken.stopped(transient)
            &&& taken.stopped(owner)
        }),
{
    waiting_contender_takes_a_free_lock(home, who, file, lock);
    let taken = home.run(home.takeover_moves(who, file, lock));
    assert(taken.contenders[transient] == home.contenders[transient]);
    assert(taken.contenders[owner] == home.contenders[owner]);
}

/// Where a contender stops, the owner and all others stay as they were.
proof fn lemma_only_owner_left<T, C, L>(
    home: SharedHome<T, C, L>,
    owner: int,
    transient: int,
    removed: bool,
    file: int,
)
    requires
        home.consistent(),
        home.owns(owner),
        home.settled(owner),
        home.settled(transient),
        owner != transient,
        home.is_free_but_for(owner),
        removed ==> home.is_fresh(file),
    ensures
        ({
            let steps = home.stop_moves(transient, removed);
            let alone = home.run(steps);
            &&& home.can_run(steps)
            &&& alone.consistent()
            &&& alone.owns(owner)
            &&& alone.settled(owner)
            &&& alone.stopped(transient)
            &&& alone.is_free_but_for(owner)
            &&& removed ==> alone.is_fresh(file)
            &&& alone.linked == home.linked && alone.contents == home.contents
            &&& alone.contenders.len() == home.contenders.len()
            &&& forall|other: int|
                home.has(other) && other != transient ==> (#[trigger] alone.contenders[other])
                    == home.contenders[other]
        }),
{
    if home.contenders[transient].runtime.owner_lock is Some {
        one_owner_at_a_time(home, owner, transient);
    }
    stopping_contender_leaves_all_alone(home, transient, removed);
    let alone = home.run(home.stop_moves(transient, removed));
    runs_keep_consistency(home, home.stop_moves(transient, removed));
    assert forall|other: int| alone.has(other) implies (#[trigger] alone.contenders[other]).held
        == home.contenders[other].held && alone.contenders[other].file
        == home.contenders[other].file by {}
}

/// Where the owner stops, no one has locked a file any more.
proof fn lemma_released<T, C, L>(
    home: SharedHome<T, C, L>,
    owner: int,
    removed: bool,
    file: int,
)
    requires
        home.consistent(),
        home.owns(owner),
        home.settled(owner),
        home.is_free_but_for(owner),
        removed ==> home.is_fresh(file),
        !removed ==> home.linked == Some(file),
    ensures
        ({
            let steps = home.stop_moves(owner, removed);
            let released = home.run(steps);
            &&& home.can_run(steps)
            &&& released.consistent()
            &&& released.stopped(owner)
            &&& !released.contenders[owner].held
            &&& released.is_free_but_for(owner)
            &&& released.opens(file)
            &&& released.contenders.len() == home.contenders.len()
            &&& forall|other: int|
                home.has(other) && other != owner ==> (#[trigger] released.contenders[other])
                    == home.contenders[other]
        }),
{
    stopping_owner_removes_then_unlocks(home, owner, removed);
    let released = home.run(home.stop_moves(owner, removed));
    assert(released.agrees(released.contenders[owner]));
    assert forall|other: int| home.has(other) && other != owner implies (
    #[trigger] released.contenders[other]) == home.contenders[other] by {}
    if removed {
        assert forall|other: int| released.has(other) implies (
        #[trigger] released.contenders[other]).file != Some(file) by {
            assert(home.contenders[other].file != Some(file));
        }
    }
}

} // verus!
