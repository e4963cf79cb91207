//! Which process records: the lock file that says so, and the process id in it.
use crate::decimal::{
    decimal, decimal_is_read_back, is_digit, number_is_read_where_it_fits, parse_u32, parsed_u32,
    to_decimal, written_number_is_read_back,
};
use crate::path::{is_absolute, joined};
use crate::text::{is_white, owned, starts_with, trim, trimmed, views};
use vstd::prelude::*;

verus! {

/// How often the lock file is read before its owner counts as unknown.
pub const READ_ATTEMPTS: u32 = 5;

/// Milliseconds between two attempts.
pub const READ_PAUSE_MILLIS: u64 = 20;

/// Seconds between two attempts to become the owner.
pub const LOCK_RETRY_SECONDS: u64 = 5;

// ---------------------------------------------------------------------------------------
// Paths
// ---------------------------------------------------------------------------------------

/// What leads from the home directory to the directory in which segments are kept: names of
/// directories, each below the one before.
pub open spec fn storage_names() -> Seq<Seq<char>> {
    seq!["recording"@, "screen_ephemeral"@]
}

/// What leads from the home directory to the lock file.
pub open spec fn lock_names() -> Seq<Seq<char>> {
    seq!["recording"@, "screen_ephemeral.lock"@]
}

/// Where `names` lead to from `home`, with `/` between the components of a path.
pub open spec fn below(home: Seq<char>, names: Seq<Seq<char>>) -> Seq<char>
    decreases names.len(),
{
    if names.len() == 0 {
        home
    } else {
        joined(below(home, names.drop_last()), names.last())
    }
}

/// The recorder's files, each by the names that lead to it from the home directory. The platform
/// puts names together into a path, with the separator that it has.
#[derive(Debug)]
pub struct RecordingPaths {
    pub storage_root: Vec<String>,
    /// The directory of the lock file.
    pub lock_directory: Vec<String>,
    pub lock_path: Vec<String>,
}

pub fn recording_paths() -> (paths: RecordingPaths)
    ensures
        views(paths.storage_root@) == storage_names(),
        views(paths.lock_directory@) == lock_names().drop_last(),
        views(paths.lock_path@) == lock_names(),
{
    let mut storage_root: Vec<String> = Vec::new();
    storage_root.push(owned("recording"));
    storage_root.push(owned("screen_ephemeral"));
    let mut lock_directory: Vec<String> = Vec::new();
    lock_directory.push(owned("recording"));
    let mut lock_path: Vec<String> = Vec::new();
    lock_path.push(owned("recording"));
    lock_path.push(owned("screen_ephemeral.lock"));
    proof {
        assert(views(storage_root@) =~= storage_names());
        assert(views(lock_directory@) =~= lock_names().drop_last());
        assert(views(lock_path@) =~= lock_names());
    }
    RecordingPaths { storage_root, lock_directory, lock_path }
}

// ---------------------------------------------------------------------------------------
// The owner's process id
// ---------------------------------------------------------------------------------------

/// What the owner writes into the lock file.
pub open spec fn owner_line(pid: u32) -> Seq<char> {
    decimal(pid as nat).push('\n')
}

pub fn owner_pid_contents(pid: u32) -> (contents: String)
    ensures
        contents@ == owner_line(pid),
{
    let mut contents: String = to_decimal(pid as u64);
    contents.push('\n');
    contents
}

/// The process id in a lock file, where there is one.
pub open spec fn owner_in(contents: Seq<char>) -> Option<u32> {
    parsed_u32(trim(contents))
}

pub fn parse_owner_pid(contents: &str) -> (pid: Option<u32>)
    ensures
        pid == owner_in(contents@),
{
    parse_u32(trimmed(contents).as_str())
}

/// What keeps the owner from being read.
#[derive(Debug, Clone, Copy, PartialEq, Eq, Structural)]
pub enum PidErrorKind {
    Open,
    Seek,
    Read,
    /// The contents are no process id.
    Invalid,
}

/// Why the owner could not be read: the message of the failed operation, or the contents that
/// are no process id.
#[derive(Debug)]
pub struct PidError {
    pub kind: PidErrorKind,
    pub text: String,
}

/// An error with its text as characters.
#[verifier::ext_equal]
pub struct PidErrorView {
    pub kind: PidErrorKind,
    pub text: Seq<char>,
}

impl View for PidError {
    type V = PidErrorView;

    open spec fn view(&self) -> PidErrorView {
        PidErrorView { kind: self.kind, text: self.text@ }
    }
}

/// What came of one attempt to read the lock file.
#[derive(Debug)]
pub enum PidEvent {
    OpenFailed(String),
    SeekFailed(String),
    ReadFailed(String),
    Contents(String),
}

/// What is to be done next to read the owner.
#[derive(Debug)]
pub enum PidAction {
    /// Open and read the lock file.
    Attempt,
    /// Wait before the next attempt.
    Pause,
    /// Nothing: this is the owner.
    Found(u32),
    /// Nothing: the owner cannot be read.
    Fail(PidError),
}

/// Reads the owner from a lock file that may still be empty.
#[derive(Debug)]
pub struct OwnerPidReader {
    pub attempts: u32,
    pub last_error: Option<PidError>,
}

/// The error of an attempt that gave no owner.
pub open spec fn attempt_error(event: PidEvent) -> PidErrorView {
    match event {
        PidEvent::OpenFailed(message) => PidErrorView { kind: PidErrorKind::Open, text: message@ },
        PidEvent::SeekFailed(message) => PidErrorView { kind: PidErrorKind::Seek, text: message@ },
        PidEvent::ReadFailed(message) => PidErrorView { kind: PidErrorKind::Read, text: message@ },
        PidEvent::Contents(contents) => PidErrorView {
            kind: PidErrorKind::Invalid,
            text: contents@,
        },
    }
}

impl OwnerPidReader {
    /// What the last attempt failed with.
    pub open spec fn error(&self) -> Option<PidErrorView> {
        match self.last_error {
            Some(error) => Some(error@),
            None => None,
        }
    }

    pub fn new() -> (reader: OwnerPidReader)
        ensures
            reader.attempts == 0,
            reader.error() is None,
    {
        OwnerPidReader { attempts: 0, last_error: None }
    }

    /// Takes note of an attempt. A process id ends the reading, and so does a file that cannot
    /// be rewound; anything else is tried again after a pause.
    pub fn attempted(&mut self, event: PidEvent) -> (action: PidAction)
        requires
            old(self).attempts < READ_ATTEMPTS,
        ensures
            final(self).attempts == old(self).attempts + 1,
            match event {
                PidEvent::Contents(contents) => match owner_in(contents@) {
                    Some(pid) => {
                        &&& action == PidAction::Found(pid)
                        &&& final(self).error() == old(self).error()
                    },
                    None => {
                        &&& action is Pause
                        &&& final(self).error() == Some(attempt_error(event))
                    },
                },
                PidEvent::SeekFailed(_) => {
                    &&& action matches PidAction::Fail(error) && error@ == attempt_error(event)
                    &&& final(self).error() == old(self).error()
                },
                _ => {
                    &&& action is Pause
                    &&& final(self).error() == Some(attempt_error(event))
                },
            },
    {
        self.attempts = self.attempts + 1;
        match event {
            PidEvent::Contents(contents) => match parse_owner_pid(contents.as_str()) {
                Some(pid) => PidAction::Found(pid),
                None => {
                    self.last_error = Some(
                        PidError { kind: PidErrorKind::Invalid, text: contents },
                    );
                    PidAction::Pause
                },
            },
            PidEvent::SeekFailed(message) => PidAction::Fail(
                PidError { kind: PidErrorKind::Seek, text: message },
            ),
            PidEvent::OpenFailed(message) => {
                self.last_error = Some(PidError { kind: PidErrorKind::Open, text: message });
                PidAction::Pause
            },
            PidEvent::ReadFailed(message) => {
                self.last_error = Some(PidError { kind: PidErrorKind::Read, text: message });
                PidAction::Pause
            },
        }
    }

    /// Goes on after a pause: tries again, or gives up with the last error.
    pub fn paused(&mut self) -> (action: PidAction)
        requires
            old(self).error() is Some,
        ensures
            final(self).attempts == old(self).attempts,
            if old(self).attempts < READ_ATTEMPTS {
                action is Attempt && final(self).error() == old(self).error()
            } else {
                action matches PidAction::Fail(error) && old(self).error() == Some(error@)
            },
    {
        if self.attempts < READ_ATTEMPTS {
            PidAction::Attempt
        } else {
            PidAction::Fail(self.last_error.take().unwrap())
        }
    }
}

// ---------------------------------------------------------------------------------------
// Laws
// ---------------------------------------------------------------------------------------

/// The process id that an owner writes is the one that others read.
pub proof fn owner_is_read_back(pid: u32)
    ensures
        owner_in(owner_line(pid)) == Some(pid),
{
    written_number_is_read_back(pid);
}

/// The lock file stands beside the storage directory, not in it: it outlives a purge.
pub proof fn lock_is_outside_storage(home: Seq<char>)
    ensures
        lock_names().drop_last() == storage_names().drop_last(),
        lock_names().last() != storage_names().last(),
        below(home, lock_names()) == below(home, storage_names()) + ".lock"@,
        !starts_with(below(home, lock_names()), below(home, storage_names()).push('/')),
{
    reveal_strlit("recording");
    reveal_strlit("screen_ephemeral");
    reveal_strlit("screen_ephemeral.lock");
    reveal_strlit(".lock");
    lemma_two_below(home, "recording"@, "screen_ephemeral"@);
    lemma_two_below(home, "recording"@, "screen_ephemeral.lock"@);
    assert(lock_names().drop_last() =~= storage_names().drop_last());
    let storage = below(home, storage_names());
    let lock = below(home, lock_names());
    assert("screen_ephemeral.lock"@ == "screen_ephemeral"@ + ".lock"@);
    assert(lock == storage + ".lock"@);
    let inside = storage.push('/');
    if starts_with(lock, inside) {
        assert(lock.take(inside.len() as int)[storage.len() as int] == lock[storage.len() as int]);
    }
}

/// Below an absolute home directory, the recorder's paths are absolute.
pub proof fn recording_paths_are_absolute(home: Seq<char>)
    requires
        is_absolute(home),
    ensures
        is_absolute(below(home, storage_names())),
        is_absolute(below(home, lock_names())),
{
    reveal_strlit("recording");
    reveal_strlit("screen_ephemeral");
    reveal_strlit("screen_ephemeral.lock");
    lemma_two_below(home, "recording"@, "screen_ephemeral"@);
    lemma_two_below(home, "recording"@, "screen_ephemeral.lock"@);
    let directory = joined(home, "recording"@);
    assert(directory[0] == home[0]);
    assert(below(home, storage_names())[0] == directory[0]);
    assert(below(home, lock_names())[0] == directory[0]);
}

proof fn lemma_two_below(home: Seq<char>, first: Seq<char>, second: Seq<char>)
    ensures
        below(home, seq![first, second]) == joined(joined(home, first), second),
{
    assert(seq![first, second].drop_last() =~= seq![first]);
    assert(seq![first].drop_last() =~= Seq::<Seq<char>>::empty());
    assert(below(home, Seq::<Seq<char>>::empty()) == home);
    assert(below(home, seq![first]) == joined(home, first));
}

/// The storage directory and the lock file have their fixed places below the home directory.
pub proof fn files_have_their_places(home: Seq<char>)
    requires
        home.len() > 0,
        home.last() != '/',
    ensures
        below(home, storage_names()) == home + "/recording/screen_ephemeral"@,
        below(home, lock_names()) == home + "/recording/screen_ephemeral.lock"@,
{
    reveal_strlit("recording");
    reveal_strlit("screen_ephemeral");
    reveal_strlit("screen_ephemeral.lock");
    reveal_strlit("/recording/screen_ephemeral");
    reveal_strlit("/recording/screen_ephemeral.lock");
    lemma_two_below(home, "recording"@, "screen_ephemeral"@);
    lemma_two_below(home, "recording"@, "screen_ephemeral.lock"@);
    assert(below(home, storage_names()) =~= home + "/recording/screen_ephemeral"@);
    assert(below(home, lock_names()) =~= home + "/recording/screen_ephemeral.lock"@);
}

/// The owner writes its process id in decimal notation on a line of its own.
pub proof fn owner_line_is_the_id(pid: u32)
    ensures
        owner_line(pid) == decimal(pid as nat) + seq!['\n'],
{
    assert(owner_line(pid) =~= decimal(pid as nat) + seq!['\n']);
}

/// White space around a process id does not matter: the id is read.
pub proof fn id_is_read_amid_white_space(before: Seq<char>, pid: u32, behind: Seq<char>)
    requires
        forall|i: int| 0 <= i < before.len() ==> is_white(#[trigger] before[i]),
        forall|i: int| 0 <= i < behind.len() ==> is_white(#[trigger] behind[i]),
    ensures
        owner_in(before + decimal(pid as nat) + behind) == Some(pid),
{
    let id = decimal(pid as nat);
    decimal_is_read_back(pid as nat);
    number_is_read_where_it_fits(pid as nat);
    assert(is_digit(id[0]) && is_digit(id[id.len() - 1]));
    lemma_trim_amid(before, id, behind);
}

proof fn lemma_trim_amid(before: Seq<char>, text: Seq<char>, behind: Seq<char>)
    requires
        text.len() > 0,
        !is_white(text[0]),
        !is_white(text.last()),
        forall|i: int| 0 <= i < before.len() ==> is_white(#[trigger] before[i]),
        forall|i: int| 0 <= i < behind.len() ==> is_white(#[trigger] behind[i]),
    ensures
        trim(before + text + behind) == text,
    decreases before.len() + behind.len(),
{
    let whole = before + text + behind;
    if before.len() > 0 {
        let rest = before.drop_first();
        assert(whole.first() == before[0]);
        assert(whole.drop_first() =~= rest + text + behind);
        assert forall|i: int| 0 <= i < rest.len() implies is_white(#[trigger] rest[i]) by {
            assert(rest[i] == before[i + 1]);
        }
        lemma_trim_amid(rest, text, behind);
    } else {
        assert(whole.first() == text[0]);
        assert(crate::text::trim_start(whole) == whole);
        if behind.len() > 0 {
            let rest = behind.drop_last();
            assert(whole.last() == behind[behind.len() - 1]);
            assert(whole.drop_last() =~= before + text + rest);
            assert forall|i: int| 0 <= i < rest.len() implies is_white(#[trigger] rest[i]) by {
                assert(rest[i] == behind[i]);
            }
            lemma_trim_amid(before, text, rest);
            assert((before + text + rest).first() == text[0]);
        } else {
            assert(whole =~= text);
        }
    }
}

/// An attempt that gave no owner is told by what failed, with the words of the failure, or with
/// the contents that are no process id.
pub proof fn failed_attempt_says_why(event: PidEvent)
    ensures
        event matches PidEvent::OpenFailed(message) ==> attempt_error(event).kind
            == PidErrorKind::Open && attempt_error(event).text == message@,
        event matches PidEvent::SeekFailed(message) ==> attempt_error(event).kind
            == PidErrorKind::Seek && attempt_error(event).text == message@,
        event matches PidEvent::ReadFailed(message) ==> attempt_error(event).kind
            == PidErrorKind::Read && attempt_error(event).text == message@,
        event matches PidEvent::Contents(contents) ==> attempt_error(event).kind
            == PidErrorKind::Invalid && attempt_error(event).text == contents@,
{
}

/// The owner's id is awaited for five attempts, 20 milliseconds apart, and the lock is tried
/// again every five seconds.
pub proof fn waiting_times()
    ensures
        READ_ATTEMPTS == 5,
        READ_PAUSE_MILLIS == 20,
        LOCK_RETRY_SECONDS == 5,
{
}

} // verus!
