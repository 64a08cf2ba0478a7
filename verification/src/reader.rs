//! What a session's output reader reports.
//!
//! The reader reads the terminal's output again and again.  After each read
//! it asks [`reader_step`] what to report and whether to go on.  The rules:
//! a read that returns bytes is reported as output, exactly those bytes; a
//! read that returns nothing is the end of the stream and is reported as an
//! exit; so is a read that fails because the terminal's other side is gone;
//! every other failure is reported as an error.  An exit or an error is the
//! last report.

use vstd::prelude::*;
use vstd::slice::{slice_subrange, slice_to_vec};
use vstd::string::*;
use crate::types::{EventModel, PtyEvent};

verus! {

/// The number of bytes that the reader asks for in one read.
pub const READ_BUFFER_SIZE: usize = 4096;

/// The operating system's error code for a terminal whose other side is
/// closed: the last process on it has exited.
pub const DEVICE_GONE: i32 = 5;

/// What one read of a terminal's output gave.
#[derive(Debug, Clone)]
pub enum ReadOutcome {
    /// The read returned these bytes; none at the end of the stream.
    Data { bytes: Vec<u8> },
    /// The read failed with this operating system code, where there is one,
    /// and this message.
    Failed { os_code: Option<i32>, message: String },
}

/// The mathematical value of a [`ReadOutcome`].
pub enum ReadModel {
    Data { bytes: Seq<u8> },
    Failed { os_code: Option<i32>, message: Seq<char> },
}

impl View for ReadOutcome {
    type V = ReadModel;

    open spec fn view(&self) -> ReadModel {
        match *self {
            ReadOutcome::Data { bytes } => ReadModel::Data { bytes: bytes@ },
            ReadOutcome::Failed { os_code, message } => ReadModel::Failed {
                os_code,
                message: message@,
            },
        }
    }
}

impl ReadOutcome {
    /// The outcome of a read that put `count` bytes at the start of
    /// `buffer`: those bytes and no others.  With a buffer of
    /// [`READ_BUFFER_SIZE`] bytes no outcome, and so no report, carries more
    /// than that.
    pub fn data(buffer: &[u8], count: usize) -> (outcome: ReadOutcome)
        requires
            count <= buffer@.len(),
        ensures
            outcome@ == (ReadModel::Data { bytes: buffer@.subrange(0, count as int) }),
    {
        ReadOutcome::Data { bytes: slice_to_vec(slice_subrange(buffer, 0, count)) }
    }

    /// The outcome of a read that failed with the operating system code
    /// `os_code`, where there is one, and `message`.
    pub fn failed(os_code: Option<i32>, message: String) -> (outcome: ReadOutcome)
        ensures
            outcome@ == (ReadModel::Failed { os_code, message: message@ }),
    {
        ReadOutcome::Failed { os_code, message }
    }
}

/// Whether the reader is still reading or has made its last report.
#[derive(Debug, Clone, Copy, PartialEq, Eq, Structural)]
pub enum ReaderState {
    Reading,
    Finished,
}

/// The report for one read.
pub open spec fn event_for(outcome: ReadModel) -> EventModel {
    match outcome {
        ReadModel::Data { bytes } => if bytes.len() == 0 {
            EventModel::Exit { code: None }
        } else {
            EventModel::Output { data: bytes }
        },
        ReadModel::Failed { os_code, message } => if os_code == Some(DEVICE_GONE) {
            EventModel::Exit { code: None }
        } else {
            EventModel::Error { message }
        },
    }
}

/// The reader's next state and its report for one read.  A reader that has
/// finished reports nothing.
pub open spec fn step(state: ReaderState, outcome: ReadModel) -> (ReaderState, Option<EventModel>) {
    match state {
        ReaderState::Finished => (ReaderState::Finished, None),
        ReaderState::Reading => {
            let event = event_for(outcome);
            if event.is_terminal() {
                (ReaderState::Finished, Some(event))
            } else {
                (ReaderState::Reading, Some(event))
            }
        },
    }
}

/// Everything that a reader in `state` reports over a run of reads.
pub open spec fn reports(state: ReaderState, outcomes: Seq<ReadModel>) -> Seq<EventModel>
    decreases outcomes.len(),
{
    if outcomes.len() == 0 {
        Seq::empty()
    } else {
        let (next, event) = step(state, outcomes[0]);
        let rest = reports(next, outcomes.drop_first());
        match event {
            Some(e) => seq![e] + rest,
            None => rest,
        }
    }
}

/// The value of an optional event.
pub open spec fn event_of(event: Option<PtyEvent>) -> Option<EventModel> {
    match event {
        Some(e) => Some(e@),
        None => None,
    }
}

/// Decides what the reader does with the result of one read: the report to
/// emit, if any, and whether the reader goes on reading.
pub fn reader_step(state: ReaderState, outcome: ReadOutcome) -> (r: (ReaderState, Option<PtyEvent>))
    ensures
        r.0 == step(state, outcome@).0,
        event_of(r.1) == step(state, outcome@).1,
{
    match state {
        ReaderState::Finished => (ReaderState::Finished, None),
        ReaderState::Reading => match outcome {
            ReadOutcome::Data { bytes } => {
                if bytes.len() == 0 {
                    (ReaderState::Finished, Some(PtyEvent::Exit { code: None }))
                } else {
                    (ReaderState::Reading, Some(PtyEvent::Output { data: bytes }))
                }
            },
            ReadOutcome::Failed { os_code, message } => {
                let gone = match os_code {
                    Some(code) => code == DEVICE_GONE,
                    None => false,
                };
                if gone {
                    (ReaderState::Finished, Some(PtyEvent::Exit { code: None }))
                } else {
                    (ReaderState::Finished, Some(PtyEvent::Error { message }))
                }
            },
        },
    }
}

/// A reader that has finished reports nothing more, whatever it reads.
pub proof fn lemma_finished_is_silent(outcomes: Seq<ReadModel>)
    ensures
        reports(ReaderState::Finished, outcomes) == Seq::<EventModel>::empty(),
    decreases outcomes.len(),
{
    if outcomes.len() > 0 {
        lemma_finished_is_silent(outcomes.drop_first());
    }
}

/// Over any run of reads, a reader reports the reads one by one, each read as
/// its own event, up to and including the first one that ends the stream;
/// every report before the last is output, and nothing follows an exit or an
/// error.
pub proof fn lemma_reports_end_once(outcomes: Seq<ReadModel>)
    ensures
        reports(ReaderState::Reading, outcomes).len() <= outcomes.len(),
        forall|i: int|
            0 <= i < reports(ReaderState::Reading, outcomes).len() ==> #[trigger] reports(
                ReaderState::Reading,
                outcomes,
            )[i] == event_for(outcomes[i]),
        forall|i: int|
            0 <= i < reports(ReaderState::Reading, outcomes).len() - 1 ==> !(#[trigger] reports(
                ReaderState::Reading,
                outcomes,
            )[i]).is_terminal(),
        reports(ReaderState::Reading, outcomes).len() < outcomes.len() ==> reports(
            ReaderState::Reading,
            outcomes,
        ).last().is_terminal(),
    decreases outcomes.len(),
{
    if outcomes.len() > 0 {
        let first = event_for(outcomes[0]);
        let tail = outcomes.drop_first();
        if first.is_terminal() {
            lemma_finished_is_silent(tail);
            assert(reports(ReaderState::Reading, outcomes) =~= seq![first]);
        } else {
            lemma_reports_end_once(tail);
            let rest = reports(ReaderState::Reading, tail);
            let all = reports(ReaderState::Reading, outcomes);
            assert(all =~= seq![first] + rest);
            assert forall|i: int| 0 <= i < all.len() implies #[trigger] all[i] == event_for(
                outcomes[i],
            ) by {
                if i > 0 {
                    assert(all[i] == rest[i - 1]);
                    assert(tail[i - 1] == outcomes[i]);
                }
            }
            assert forall|i: int| 0 <= i < all.len() - 1 implies !(#[trigger] all[i]).is_terminal() by {
                if i > 0 {
                    assert(all[i] == rest[i - 1]);
                }
            }
            if all.len() < outcomes.len() {
                assert(rest.len() < tail.len());
                assert(all.last() == rest.last());
            }
        }
    }
}

} // verus!
