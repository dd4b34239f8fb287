//! The decisions of the download pipeline.
//!
//! Fetching and writing are the caller's work. What to do next is decided
//! here: the caller reports what happened as an event and is told the next
//! action, for the destination directory and for each episode's transfer.

use vstd::prelude::*;
use crate::decimal::{decimal, push_decimal};
use crate::podchiver::{episode_views, filename_of, EpisodeView, Podcast};
use crate::progress_indicator::{advanced, bar_text, ProgressIndicator, ProgressState};
use crate::text::{chars_of, push_chars};

verus! {

/// The width, in cells, of the progress bar of a transfer.
pub const BAR_WIDTH: u16 = 72;

/// The exit status after a destination directory could not be created.
pub const EXIT_CREATE_FAILED: i32 = 1;

/// The exit status where the destination exists and is no directory.
pub const EXIT_NOT_A_DIRECTORY: i32 = 2;

/// Where a document is to be read from.
#[derive(Clone, Copy, PartialEq, Eq, Debug, Structural)]
pub enum Source {
    /// Over HTTP or HTTPS.
    Remote,
    /// From the local filesystem.
    Local,
}

/// The beginning by which a location is taken for a web address.
pub open spec fn remote_prefix() -> Seq<char> {
    seq!['h', 't', 't', 'p']
}

/// Where the document at `location` is to be read from: from the web where
/// `location` begins with `http`, which covers `https` too, and from the
/// local filesystem otherwise.
pub fn source_of(location: &str) -> (source: Source)
    ensures
        source == if remote_prefix().is_prefix_of(location@) {
            Source::Remote
        } else {
            Source::Local
        },
{
    let chars = chars_of(location);
    if chars.len() >= 4 && chars[0] == 'h' && chars[1] == 't' && chars[2] == 't' && chars[3]
        == 'p' {
        assert(remote_prefix() =~= location@.subrange(0, 4));
        Source::Remote
    } else {
        proof {
            if remote_prefix().is_prefix_of(location@) {
                assert(remote_prefix().len() == 4);
                assert(location@.subrange(0, 4)[0] == 'h');
                assert(location@.subrange(0, 4)[1] == 't');
                assert(location@.subrange(0, 4)[2] == 't');
                assert(location@.subrange(0, 4)[3] == 'p');
            }
        }
        Source::Local
    }
}

/// How the attempt to create a feed's directory ended.
#[derive(Clone, Copy, PartialEq, Eq, Debug)]
pub enum DirectoryAttempt {
    /// The directory was created.
    Created,
    /// Something was there already; `is_directory` says whether it is a
    /// directory.
    AlreadyExists { is_directory: bool },
    /// The directory could not be created for another reason.
    Failed,
}

/// What follows from the attempt to create a feed's directory.
#[derive(Clone, Copy, PartialEq, Eq, Debug)]
pub enum DirectoryDecision {
    /// The directory is there: download into it.
    Proceed,
    /// Nothing can be saved: end the run with this exit status.
    Exit { status: i32 },
}

/// What follows from `attempt`.
pub open spec fn directory_decision_for(attempt: DirectoryAttempt) -> DirectoryDecision {
    match attempt {
        DirectoryAttempt::Created => DirectoryDecision::Proceed,
        DirectoryAttempt::AlreadyExists { is_directory } => if is_directory {
            DirectoryDecision::Proceed
        } else {
            DirectoryDecision::Exit { status: EXIT_NOT_A_DIRECTORY }
        },
        DirectoryAttempt::Failed => DirectoryDecision::Exit { status: EXIT_CREATE_FAILED },
    }
}

/// Decides whether the run goes on after the attempt to create a feed's
/// directory. A directory that was there already is as good as a new one;
/// anything else in its place, or any other failure, ends the run.
pub fn decide_directory(attempt: DirectoryAttempt) -> (decision: DirectoryDecision)
    ensures
        decision == directory_decision_for(attempt),
        decision is Proceed <==> (attempt is Created || attempt == (
        DirectoryAttempt::AlreadyExists { is_directory: true })),
{
    match attempt {
        DirectoryAttempt::Created => DirectoryDecision::Proceed,
        DirectoryAttempt::AlreadyExists { is_directory } => {
            if is_directory {
                DirectoryDecision::Proceed
            } else {
                DirectoryDecision::Exit { status: EXIT_NOT_A_DIRECTORY }
            }
        },
        DirectoryAttempt::Failed => DirectoryDecision::Exit { status: EXIT_CREATE_FAILED },
    }
}

/// An episode to download: the address to fetch, and the name under which
/// the file is saved in the directory of its feed.
pub struct DownloadTarget {
    pub url: String,
    pub filename: String,
}

/// What a [`DownloadTarget`] stands for.
pub struct DownloadTargetView {
    pub url: Seq<char>,
    pub filename: Seq<char>,
}

impl View for DownloadTarget {
    type V = DownloadTargetView;

    open spec fn view(&self) -> DownloadTargetView {
        DownloadTargetView { url: self.url@, filename: self.filename@ }
    }
}

/// What `targets` stand for.
pub open spec fn target_views(targets: Seq<DownloadTarget>) -> Seq<DownloadTargetView> {
    targets.map_values(|target: DownloadTarget| target@)
}

/// The target for `episode`.
pub open spec fn target_of(episode: EpisodeView, use_date_prefix: bool) -> DownloadTargetView {
    DownloadTargetView { url: episode.url, filename: filename_of(episode, use_date_prefix) }
}

/// The targets for `episodes`: one for each, in their order.
pub open spec fn targets_of(episodes: Seq<EpisodeView>, use_date_prefix: bool) -> Seq<
    DownloadTargetView,
> {
    Seq::new(episodes.len(), |i: int| target_of(episodes[i], use_date_prefix))
}

/// What is to be downloaded for `podcast`: every episode, in the order of
/// the feed, with the name of its file. Names are not held against each
/// other: two episodes may get the same.
pub fn download_targets(podcast: &Podcast, use_date_prefix: bool) -> (targets: Vec<DownloadTarget>)
    ensures
        target_views(targets@) == targets_of(podcast@.episodes, use_date_prefix),
        targets@.len() == podcast@.episodes.len(),
{
    let ghost episodes = episode_views(podcast.episodes@);
    let mut targets: Vec<DownloadTarget> = Vec::new();
    let mut i: usize = 0;
    assert(target_views(targets@) =~= targets_of(episodes.take(0), use_date_prefix));
    while i < podcast.episodes.len()
        invariant
            i <= podcast.episodes.len(),
            episodes == episode_views(podcast.episodes@),
            target_views(targets@) == targets_of(episodes.take(i as int), use_date_prefix),
        decreases podcast.episodes.len() - i,
    {
        let episode = &podcast.episodes[i];
        let ghost before = target_views(targets@);
        let target = DownloadTarget {
            url: episode.url.clone(),
            filename: episode.filename(use_date_prefix),
        };
        proof {
            assert(episodes[i as int] == episode@);
            assert(target@ == target_of(episode@, use_date_prefix));
        }
        targets.push(target);
        proof {
            assert(target_views(targets@) =~= before.push(target_of(episode@, use_date_prefix)));
            assert(targets_of(episodes.take(i + 1), use_date_prefix) =~= targets_of(
                episodes.take(i as int),
                use_date_prefix,
            ).push(target_of(episode@, use_date_prefix)));
        }
        i += 1;
    }
    proof {
        assert(episodes.take(podcast.episodes@.len() as int) =~= episodes);
    }
    targets
}

/// Why a transfer was given up.
#[derive(Clone, Copy, PartialEq, Eq, Debug)]
pub enum TransferFailure {
    /// The request itself failed.
    Request,
    /// Reading the response failed part-way.
    Read,
    /// Opening the destination, or writing to it, failed.
    Write,
}

/// Where a transfer stands.
#[derive(Clone, Copy, PartialEq, Eq, Debug)]
pub enum TransferPhase {
    /// The request is out; no response yet.
    AwaitingResponse,
    /// The response is in; the destination is to be opened.
    AwaitingDestination,
    /// The next chunk is to be read.
    AwaitingRead,
    /// A chunk of `len` bytes was read and is to be written.
    AwaitingWrite { len: u64 },
    /// The stream ended; everything read was written.
    Finished,
    /// The transfer was given up.
    Failed { failure: TransferFailure },
}

/// What happened since the last action.
#[derive(Clone, Copy, PartialEq, Eq, Debug)]
pub enum TransferEvent {
    /// The response arrived; `content_length` is its announced size, if any.
    Response { content_length: Option<u64> },
    /// The request failed.
    RequestFailed,
    /// The destination was opened for writing.
    Opened,
    /// The destination could not be opened.
    OpenFailed,
    /// A read returned `len` bytes; zero means the stream has ended.
    Read { len: u64 },
    /// A read failed.
    ReadFailed,
    /// The chunk was written.
    Written,
    /// The chunk could not be written.
    WriteFailed,
}

/// What to do next.
#[derive(Clone, Copy, PartialEq, Eq, Debug)]
pub enum TransferAction {
    /// Open the destination for writing.
    Open,
    /// Read the next chunk.
    Read,
    /// Write the chunk that was just read.
    Write,
    /// Show the report, then read the next chunk.
    ShowAndRead,
    /// Show the final report; the transfer is complete.
    Finish,
    /// Report the failure and go on to the next episode.
    Abandon,
    /// The event does not fit the phase; nothing changes.
    Ignore,
}

/// What a [`Transfer`] stands for.
pub struct TransferState {
    /// The name under which a transfer of unknown size is reported.
    pub label: Seq<char>,
    pub phase: TransferPhase,
    /// The bytes written so far.
    pub received: nat,
    /// The progress bar's state; `None` while the size is unknown.
    pub progress: Option<ProgressState>,
}

/// The progress state that a response starts with: a bar where the size was
/// announced and is not zero, none otherwise.
pub open spec fn progress_for(content_length: Option<u64>) -> Option<ProgressState> {
    match content_length {
        Some(total) => if total > 0 {
            Some(
                ProgressState {
                    downloaded: 0,
                    total: total as nat,
                    display_width: BAR_WIDTH as nat,
                },
            )
        } else {
            None
        },
        None => None,
    }
}

/// The sum of `received` and `len`, held at the largest 64-bit number.
pub open spec fn counted(received: nat, len: nat) -> nat {
    if received + len > u64::MAX {
        u64::MAX as nat
    } else {
        received + len
    }
}

/// The state that follows `state` on `event`.
pub open spec fn state_after(state: TransferState, event: TransferEvent) -> TransferState {
    match state.phase {
        TransferPhase::AwaitingResponse => match event {
            TransferEvent::Response { content_length } => TransferState {
                phase: TransferPhase::AwaitingDestination,
                progress: progress_for(content_length),
                ..state
            },
            TransferEvent::RequestFailed => TransferState {
                phase: TransferPhase::Failed { failure: TransferFailure::Request },
                ..state
            },
            _ => state,
        },
        TransferPhase::AwaitingDestination => match event {
            TransferEvent::Opened => TransferState { phase: TransferPhase::AwaitingRead, ..state },
            TransferEvent::OpenFailed => TransferState {
                phase: TransferPhase::Failed { failure: TransferFailure::Write },
                ..state
            },
            _ => state,
        },
        TransferPhase::AwaitingRead => match event {
            TransferEvent::Read { len } => if len == 0 {
                TransferState { phase: TransferPhase::Finished, ..state }
            } else {
                TransferState { phase: TransferPhase::AwaitingWrite { len }, ..state }
            },
            TransferEvent::ReadFailed => TransferState {
                phase: TransferPhase::Failed { failure: TransferFailure::Read },
                ..state
            },
            _ => state,
        },
        TransferPhase::AwaitingWrite { len } => match event {
            TransferEvent::Written => TransferState {
                phase: TransferPhase::AwaitingRead,
                received: counted(state.received, len as nat),
                progress: match state.progress {
                    Some(progress) => Some(advanced(progress, len as nat)),
                    None => None,
                },
                ..state
            },
            TransferEvent::WriteFailed => TransferState {
                phase: TransferPhase::Failed { failure: TransferFailure::Write },
                ..state
            },
            _ => state,
        },
        TransferPhase::Finished => state,
        TransferPhase::Failed { failure } => state,
    }
}

/// The action that answers `event` in `state`.
pub open spec fn action_on(state: TransferState, event: TransferEvent) -> TransferAction {
    match state.phase {
        TransferPhase::AwaitingResponse => match event {
            TransferEvent::Response { content_length } => TransferAction::Open,
            TransferEvent::RequestFailed => TransferAction::Abandon,
            _ => TransferAction::Ignore,
        },
        TransferPhase::AwaitingDestination => match event {
            TransferEvent::Opened => TransferAction::Read,
            TransferEvent::OpenFailed => TransferAction::Abandon,
            _ => TransferAction::Ignore,
        },
        TransferPhase::AwaitingRead => match event {
            TransferEvent::Read { len } => if len == 0 {
                TransferAction::Finish
            } else {
                TransferAction::Write
            },
            TransferEvent::ReadFailed => TransferAction::Abandon,
            _ => TransferAction::Ignore,
        },
        TransferPhase::AwaitingWrite { len } => match event {
            TransferEvent::Written => TransferAction::ShowAndRead,
            TransferEvent::WriteFailed => TransferAction::Abandon,
            _ => TransferAction::Ignore,
        },
        TransferPhase::Finished => TransferAction::Ignore,
        TransferPhase::Failed { failure } => TransferAction::Ignore,
    }
}

/// The running count shown while the size is unknown: a carriage return, the
/// label, a colon, and the number of bytes.
pub open spec fn counter_text(label: Seq<char>, received: nat) -> Seq<char> {
    seq!['\r'] + label + seq![':', ' '] + decimal(received) + seq![' ', 'b', 'y', 't', 'e', 's']
}

/// The report of `state`: the bar where the size is known, the running count
/// where it is not.
pub open spec fn report_text(state: TransferState) -> Seq<char> {
    match state.progress {
        Some(progress) => bar_text(progress),
        None => counter_text(state.label, state.received),
    }
}

/// The state after the `events`, one after another.
pub open spec fn state_after_all(state: TransferState, events: Seq<TransferEvent>) -> TransferState
    decreases events.len(),
{
    if events.len() == 0 {
        state
    } else {
        state_after(state_after_all(state, events.drop_last()), events.last())
    }
}

/// What holds of the state of every transfer: the count fits in 64 bits, and
/// the bar, where there is one, has a positive total and is within it.
pub open spec fn valid_state(state: TransferState) -> bool {
    &&& state.received <= u64::MAX
    &&& state.progress matches Some(progress) ==> progress.downloaded <= progress.total
        && progress.total > 0
}

/// Whether `phase` is one that no event leads out of.
pub open spec fn is_final(phase: TransferPhase) -> bool {
    phase is Finished || phase is Failed
}

/// One event never lowers the count of what was received, keeps the bar
/// within its total, and leaves a transfer that has ended as it is.
pub proof fn lemma_step_keeps_order(state: TransferState, event: TransferEvent)
    requires
        valid_state(state),
    ensures
        state.received <= state_after(state, event).received,
        valid_state(state_after(state, event)),
        state_after(state, event).label == state.label,
        is_final(state.phase) ==> state_after(state, event) == state && action_on(state, event)
            == TransferAction::Ignore,
        action_on(state, event) == TransferAction::Ignore ==> state_after(state, event) == state,
{
}

/// Whatever events arrive, the count of what was received never goes back,
/// and a transfer that has ended stays as it ended.
pub proof fn lemma_events_keep_order(state: TransferState, events: Seq<TransferEvent>)
    requires
        valid_state(state),
    ensures
        state.received <= state_after_all(state, events).received,
        valid_state(state_after_all(state, events)),
        is_final(state.phase) ==> state_after_all(state, events) == state,
    decreases events.len(),
{
    if events.len() > 0 {
        lemma_events_keep_order(state, events.drop_last());
        lemma_step_keeps_order(state_after_all(state, events.drop_last()), events.last());
    }
}

/// The transfer of one episode: what has arrived, and what is awaited.
pub struct Transfer {
    label: String,
    phase: TransferPhase,
    received: u64,
    tracker: Option<ProgressIndicator>,
}

impl View for Transfer {
    type V = TransferState;

    closed spec fn view(&self) -> TransferState {
        TransferState {
            label: self.label@,
            phase: self.phase,
            received: self.received as nat,
            progress: match self.tracker {
                Some(tracker) => Some(tracker@),
                None => None,
            },
        }
    }
}

impl Transfer {
    /// A transfer whose request is out. `label` names it in the running count
    /// that is shown while its size is unknown.
    pub fn new(label: String) -> (transfer: Transfer)
        ensures
            transfer@ == (TransferState {
                label: label@,
                phase: TransferPhase::AwaitingResponse,
                received: 0,
                progress: None,
            }),
            valid_state(transfer@),
    {
        Transfer { label, phase: TransferPhase::AwaitingResponse, received: 0, tracker: None }
    }

    /// Where the transfer stands.
    pub fn phase(&self) -> (phase: TransferPhase)
        ensures
            phase == self@.phase,
    {
        self.phase
    }

    /// The bytes written so far.
    pub fn received(&self) -> (received: u64)
        ensures
            received == self@.received,
    {
        self.received
    }

    /// Whether the size is known, so that a bar is shown.
    pub fn has_bar(&self) -> (r: bool)
        ensures
            r == self@.progress is Some,
    {
        self.tracker.is_some()
    }

    /// Takes in `event` and says what to do next.
    pub fn step(&mut self, event: TransferEvent) -> (action: TransferAction)
        ensures
            final(self)@ == state_after(old(self)@, event),
            action == action_on(old(self)@, event),
            valid_state(final(self)@),
    {
        proof {
            if let Some(tracker) = self.tracker {
                use_type_invariant(&tracker);
                tracker.lemma_within_total();
            }
        }
        match self.phase {
            TransferPhase::AwaitingResponse => match event {
                TransferEvent::Response { content_length } => {
                    self.tracker = match content_length {
                        Some(total) => if total > 0 {
                            Some(ProgressIndicator::new(total, BAR_WIDTH))
                        } else {
                            None
                        },
                        None => None,
                    };
                    self.phase = TransferPhase::AwaitingDestination;
                    TransferAction::Open
                },
                TransferEvent::RequestFailed => {
                    self.phase = TransferPhase::Failed { failure: TransferFailure::Request };
                    TransferAction::Abandon
                },
                _ => TransferAction::Ignore,
            },
            TransferPhase::AwaitingDestination => match event {
                TransferEvent::Opened => {
                    self.phase = TransferPhase::AwaitingRead;
                    TransferAction::Read
                },
                TransferEvent::OpenFailed => {
                    self.phase = TransferPhase::Failed { failure: TransferFailure::Write };
                    TransferAction::Abandon
                },
                _ => TransferAction::Ignore,
            },
            TransferPhase::AwaitingRead => match event {
                TransferEvent::Read { len } => {
                    if len == 0 {
                        self.phase = TransferPhase::Finished;
                        TransferAction::Finish
                    } else {
                        self.phase = TransferPhase::AwaitingWrite { len };
                        TransferAction::Write
                    }
                },
                TransferEvent::ReadFailed => {
                    self.phase = TransferPhase::Failed { failure: TransferFailure::Read };
                    TransferAction::Abandon
                },
                _ => TransferAction::Ignore,
            },
            TransferPhase::AwaitingWrite { len } => match event {
                TransferEvent::Written => {
                    self.received = if len > u64::MAX - self.received {
                        u64::MAX
                    } else {
                        self.received + len
                    };
                    self.tracker = match self.tracker {
                        Some(tracker) => {
                            let mut tracker = tracker;
                            tracker.progress(len);
                            Some(tracker)
                        },
                        None => None,
                    };
                    self.phase = TransferPhase::AwaitingRead;
                    TransferAction::ShowAndRead
                },
                TransferEvent::WriteFailed => {
                    self.phase = TransferPhase::Failed { failure: TransferFailure::Write };
                    TransferAction::Abandon
                },
                _ => TransferAction::Ignore,
            },
            TransferPhase::Finished => TransferAction::Ignore,
            TransferPhase::Failed { failure } => TransferAction::Ignore,
        }
    }

    /// The text that shows how far the transfer has come.
    pub fn report(&self) -> (text: String)
        ensures
            text@ == report_text(self@),
    {
        match &self.tracker {
            Some(tracker) => tracker.render(),
            None => {
                let mut text = String::new();
                text.push('\r');
                let label = chars_of(self.label.as_str());
                push_chars(&mut text, &label);
                let ghost named = text@;
                text.push(':');
                text.push(' ');
                assert(text@ =~= named + seq![':', ' ']);
                push_decimal(&mut text, self.received);
                let ghost figures = text@;
                text.push(' ');
                text.push('b');
                text.push('y');
                text.push('t');
                text.push('e');
                text.push('s');
                assert(text@ =~= figures + seq![' ', 'b', 'y', 't', 'e', 's']);
                text
            },
        }
    }
}

} // verus!
