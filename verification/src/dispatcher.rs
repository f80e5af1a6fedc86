//! The course of one request through a worker: take a store handle from
//! the pool, select, compose, record telemetry, give the handle back,
//! respond.
//!
//! The store and the pool are reached by whoever drives the worker. The
//! worker itself is a function from its stage and the event that ended the
//! last action to the next stage and the next action. It decides what
//! follows what, what a failure costs, and that a handle once taken is
//! given back before anything is answered.

use crate::canvas::FRAME_BYTES;
use crate::composer::{all_well_sized, compose, composed, lemma_composed_len};
use crate::selector::{Selection, SelectionView};
use crate::telemetry::{refs_of, ItemRefs, ItemRefsView};
use vstd::prelude::*;

verus! {

/// The number of workers that serve requests side by side.
pub const WORKERS: usize = 2;

/// The number of store handles in the pool.
pub const POOL_SIZE: usize = 2;

/// The ways in which a request can go wrong.
#[derive(Clone, Copy, Debug, PartialEq, Eq, Structural)]
pub enum ErrorKind {
    /// No store handle was free. Not retried.
    PoolExhausted,
    /// The store failed while the rotation was advanced.
    SelectionFailed,
    /// A stored picture does not fit the canvas.
    DataCorruption,
    /// The telemetry could not be written. The frame is delivered all the
    /// same.
    TelemetryWriteFailed,
}

/// How the end of a request looks from the device.
#[derive(Clone, Copy, Debug, PartialEq, Eq, Structural)]
pub enum Surface {
    /// The frame is delivered.
    Delivered,
    /// Nothing is delivered; the device may come back later.
    TemporarilyUnavailable,
    /// Nothing is delivered; the server is at fault.
    ServerError,
}

/// How one request ended.
#[derive(Debug, PartialEq, Eq)]
pub enum Outcome {
    /// The frame for the device, and what went wrong beside it, if
    /// anything: that is reported, not shown to the device.
    Frame { bytes: Vec<u8>, report: Option<ErrorKind> },
    /// No frame.
    Failed { kind: ErrorKind },
}

/// An outcome as mathematical values.
pub enum OutcomeView {
    Frame { bytes: Seq<u8>, report: Option<ErrorKind> },
    Failed { kind: ErrorKind },
}

impl View for Outcome {
    type V = OutcomeView;

    open spec fn view(&self) -> OutcomeView {
        match self {
            Outcome::Frame { bytes, report } => OutcomeView::Frame {
                bytes: bytes@,
                report: *report,
            },
            Outcome::Failed { kind } => OutcomeView::Failed { kind: *kind },
        }
    }
}

/// How an outcome is surfaced: an exhausted pool as a passing
/// unavailability, any other failure as a server error.
pub open spec fn surface_of(outcome: OutcomeView) -> Surface {
    match outcome {
        OutcomeView::Frame { .. } => Surface::Delivered,
        OutcomeView::Failed { kind: ErrorKind::PoolExhausted } => Surface::TemporarilyUnavailable,
        OutcomeView::Failed { .. } => Surface::ServerError,
    }
}

impl Outcome {
    /// How the outcome is surfaced to the device.
    pub fn surface(&self) -> (surface: Surface)
        ensures
            surface == surface_of(self@),
    {
        match self {
            Outcome::Frame { .. } => Surface::Delivered,
            Outcome::Failed { kind } => match kind {
                ErrorKind::PoolExhausted => Surface::TemporarilyUnavailable,
                _ => Surface::ServerError,
            },
        }
    }
}

/// Where a worker stands.
#[derive(Debug, PartialEq, Eq)]
pub enum Stage {
    /// Between two requests. The worker holds nothing.
    Idle,
    /// A handle has been asked for.
    Acquiring,
    /// A handle is held; the store selects and advances.
    Selecting,
    /// A handle is held; the frame is ready and the telemetry is written.
    Recording { frame: Vec<u8> },
    /// A handle is held and is to be given back; the outcome is settled.
    Releasing { outcome: Outcome },
}

/// A stage as mathematical values.
pub enum StageView {
    Idle,
    Acquiring,
    Selecting,
    Recording { frame: Seq<u8> },
    Releasing { outcome: OutcomeView },
}

impl View for Stage {
    type V = StageView;

    open spec fn view(&self) -> StageView {
        match self {
            Stage::Idle => StageView::Idle,
            Stage::Acquiring => StageView::Acquiring,
            Stage::Selecting => StageView::Selecting,
            Stage::Recording { frame } => StageView::Recording { frame: frame@ },
            Stage::Releasing { outcome } => StageView::Releasing { outcome: outcome@ },
        }
    }
}

/// What ended the last action.
#[derive(Debug, PartialEq, Eq)]
pub enum Event {
    /// A device asks for the next frame.
    Intent,
    /// The pool handed out a handle.
    Acquired,
    /// The pool had no free handle.
    Exhausted,
    /// The store advanced the rotation and returned what it selected.
    Selected { selection: Selection },
    /// The store failed to select.
    SelectionFailed,
    /// The telemetry is written.
    Recorded,
    /// The telemetry could not be written.
    RecordFailed,
    /// The handle is back in the pool.
    Released,
}

/// An event as mathematical values.
pub enum EventView {
    Intent,
    Acquired,
    Exhausted,
    Selected { selection: SelectionView },
    SelectionFailed,
    Recorded,
    RecordFailed,
    Released,
}

impl View for Event {
    type V = EventView;

    open spec fn view(&self) -> EventView {
        match self {
            Event::Intent => EventView::Intent,
            Event::Acquired => EventView::Acquired,
            Event::Exhausted => EventView::Exhausted,
            Event::Selected { selection } => EventView::Selected { selection: selection@ },
            Event::SelectionFailed => EventView::SelectionFailed,
            Event::Recorded => EventView::Recorded,
            Event::RecordFailed => EventView::RecordFailed,
            Event::Released => EventView::Released,
        }
    }
}

/// What the driver is to do next.
#[derive(Debug, PartialEq, Eq)]
pub enum Action {
    /// Nothing: the event was not one that the stage takes.
    Ignore,
    /// Ask the pool for a handle, without blocking.
    Acquire,
    /// Select and advance at the store, as one atomic operation.
    Select,
    /// Write the telemetry of this request with these picture references.
    Record { item_refs: ItemRefs },
    /// Give the handle back to the pool.
    Release,
    /// Answer the device.
    Respond { outcome: Outcome },
}

/// An action as mathematical values.
pub enum ActionView {
    Ignore,
    Acquire,
    Select,
    Record { item_refs: ItemRefsView },
    Release,
    Respond { outcome: OutcomeView },
}

impl View for Action {
    type V = ActionView;

    open spec fn view(&self) -> ActionView {
        match self {
            Action::Ignore => ActionView::Ignore,
            Action::Acquire => ActionView::Acquire,
            Action::Select => ActionView::Select,
            Action::Record { item_refs } => ActionView::Record { item_refs: item_refs@ },
            Action::Release => ActionView::Release,
            Action::Respond { outcome } => ActionView::Respond { outcome: outcome@ },
        }
    }
}

/// The stage that gives the handle back and then answers with `outcome`.
pub open spec fn release_then(outcome: OutcomeView) -> (StageView, ActionView) {
    (StageView::Releasing { outcome }, ActionView::Release)
}

/// The next stage and the next action.
///
/// Each stage takes the events that can end its action. Any other event
/// is ignored: the worker stays where it is.
pub open spec fn stepped(stage: StageView, event: EventView) -> (StageView, ActionView) {
    match (stage, event) {
        (StageView::Idle, EventView::Intent) => (StageView::Acquiring, ActionView::Acquire),
        (StageView::Acquiring, EventView::Acquired) => (StageView::Selecting, ActionView::Select),
        (StageView::Acquiring, EventView::Exhausted) => (
            StageView::Idle,
            ActionView::Respond { outcome: OutcomeView::Failed { kind: ErrorKind::PoolExhausted } },
        ),
        (StageView::Selecting, EventView::Selected { selection }) => if all_well_sized(selection) {
            (
                StageView::Recording { frame: composed(selection) },
                ActionView::Record { item_refs: refs_of(selection) },
            )
        } else {
            release_then(OutcomeView::Failed { kind: ErrorKind::DataCorruption })
        },
        (StageView::Selecting, EventView::SelectionFailed) => release_then(
            OutcomeView::Failed { kind: ErrorKind::SelectionFailed },
        ),
        (StageView::Recording { frame }, EventView::Recorded) => release_then(
            OutcomeView::Frame { bytes: frame, report: None },
        ),
        (StageView::Recording { frame }, EventView::RecordFailed) => release_then(
            OutcomeView::Frame { bytes: frame, report: Some(ErrorKind::TelemetryWriteFailed) },
        ),
        (StageView::Releasing { outcome }, EventView::Released) => (
            StageView::Idle,
            ActionView::Respond { outcome },
        ),
        (stage, _) => (stage, ActionView::Ignore),
    }
}

/// Takes a worker from one stage to the next.
///
/// A selection that arrives while the worker selects is composed at once:
/// the frame waits in the stage while the telemetry is written, and a
/// picture of the wrong size ends the request without telemetry. Whatever
/// happens after a handle was acquired, the handle is released before the
/// request is answered.
pub fn step(stage: Stage, event: Event) -> (next: (Stage, Action))
    ensures
        (next.0@, next.1@) == stepped(stage@, event@),
{
    match (stage, event) {
        (Stage::Idle, Event::Intent) => (Stage::Acquiring, Action::Acquire),
        (Stage::Acquiring, Event::Acquired) => (Stage::Selecting, Action::Select),
        (Stage::Acquiring, Event::Exhausted) => (
            Stage::Idle,
            Action::Respond { outcome: Outcome::Failed { kind: ErrorKind::PoolExhausted } },
        ),
        (Stage::Selecting, Event::Selected { selection }) => match compose(&selection) {
            Ok(frame) => (
                Stage::Recording { frame },
                Action::Record { item_refs: ItemRefs::of(&selection) },
            ),
            Err(_) => (
                Stage::Releasing { outcome: Outcome::Failed { kind: ErrorKind::DataCorruption } },
                Action::Release,
            ),
        },
        (Stage::Selecting, Event::SelectionFailed) => (
            Stage::Releasing { outcome: Outcome::Failed { kind: ErrorKind::SelectionFailed } },
            Action::Release,
        ),
        (Stage::Recording { frame }, Event::Recorded) => (
            Stage::Releasing { outcome: Outcome::Frame { bytes: frame, report: None } },
            Action::Release,
        ),
        (Stage::Recording { frame }, Event::RecordFailed) => (
            Stage::Releasing {
                outcome: Outcome::Frame {
                    bytes: frame,
                    report: Some(ErrorKind::TelemetryWriteFailed),
                },
            },
            Action::Release,
        ),
        (Stage::Releasing { outcome }, Event::Released) => (
            Stage::Idle,
            Action::Respond { outcome },
        ),
        (stage, _) => (stage, Action::Ignore),
    }
}

/// The worker holds a store handle.
pub open spec fn holds_handle(stage: StageView) -> bool {
    stage is Selecting || stage is Recording || stage is Releasing
}

/// What can be said of a stage that a worker reaches from `Idle`: a frame
/// in it has the size of the canvas, and a settled failure is one of the
/// store's.
pub open spec fn sound(stage: StageView) -> bool {
    match stage {
        StageView::Recording { frame } => frame.len() == FRAME_BYTES,
        StageView::Releasing { outcome: OutcomeView::Frame { bytes, report } } => {
            &&& bytes.len() == FRAME_BYTES
            &&& report is None || report == Some(ErrorKind::TelemetryWriteFailed)
        },
        StageView::Releasing { outcome: OutcomeView::Failed { kind } } => kind
            == ErrorKind::SelectionFailed || kind == ErrorKind::DataCorruption,
        _ => true,
    }
}

/// A handle is taken only when the pool hands one out and is let go only
/// through a release; nothing is answered while a handle is held; and a
/// release is asked for exactly on entering `Releasing`.
pub proof fn lemma_handle_is_given_back(stage: StageView, event: EventView)
    ensures
        ({
            let (next, action) = stepped(stage, event);
            &&& !holds_handle(stage) && holds_handle(next) ==> stage is Acquiring
                && event is Acquired
            &&& holds_handle(stage) && !holds_handle(next) ==> stage is Releasing
                && event is Released
            &&& action is Respond ==> next is Idle
            &&& action is Release <==> next is Releasing && !(stage is Releasing)
        }),
{
}

/// Every event that a stage takes while a handle is held brings the
/// release nearer: selecting leads to recording or releasing, recording to
/// releasing, releasing to `Idle`. So a handle is back in the pool after at
/// most three such events, whether they tell of success or of failure.
pub proof fn lemma_every_path_releases(stage: StageView, event: EventView)
    requires
        holds_handle(stage),
        !(stepped(stage, event).1 is Ignore),
    ensures
        ({
            let (next, action) = stepped(stage, event);
            &&& stage is Selecting ==> (next is Recording && action is Record) || (
            next is Releasing && action is Release)
            &&& stage is Recording ==> next is Releasing && action is Release
            &&& stage is Releasing ==> next is Idle && action is Respond
        }),
{
}

/// What a worker answers is sound: a frame has exactly the size of the
/// canvas and is the composition of the selection of this request, the
/// loss of telemetry is the only thing reported beside a frame, and it is
/// never the reason for a failure.
pub proof fn lemma_step_keeps_sound(stage: StageView, event: EventView)
    requires
        sound(stage),
        event matches EventView::Selected { selection } ==> selection.wf(),
    ensures
        sound(stepped(stage, event).0),
        match stepped(stage, event).1 {
            ActionView::Respond { outcome: OutcomeView::Frame { bytes, report } } => {
                &&& bytes.len() == FRAME_BYTES
                &&& report is None || report == Some(ErrorKind::TelemetryWriteFailed)
            },
            ActionView::Respond { outcome: OutcomeView::Failed { kind } } => kind
                != ErrorKind::TelemetryWriteFailed,
            _ => true,
        },
{
    if let EventView::Selected { selection } = event {
        if all_well_sized(selection) {
            lemma_composed_len(selection);
        }
    }
}

/// A failure in the middle of one request does not harm the next: the
/// handle is released, the failed request is answered, and a following
/// request that meets no failure is answered with the frame of its
/// selection.
pub proof fn lemma_worker_recovers(stage: StageView, failure: EventView, selection: SelectionView)
    requires
        (stage is Selecting && (failure is SelectionFailed || (failure matches EventView::Selected {
            selection: corrupt,
        } && !all_well_sized(corrupt)))) || (stage is Recording && failure is RecordFailed),
        all_well_sized(selection),
    ensures
        ({
            let (failed, release) = stepped(stage, failure);
            let (idle, answer) = stepped(failed, EventView::Released);
            let (acquiring, acquire) = stepped(idle, EventView::Intent);
            let (selecting, select) = stepped(acquiring, EventView::Acquired);
            let (recording, record) = stepped(selecting, EventView::Selected { selection });
            let (releasing, release_again) = stepped(recording, EventView::Recorded);
            let (end, answer_again) = stepped(releasing, EventView::Released);
            &&& release is Release
            &&& answer is Respond
            &&& idle is Idle
            &&& acquire is Acquire
            &&& select is Select
            &&& record == (ActionView::Record { item_refs: refs_of(selection) })
            &&& release_again is Release
            &&& answer_again == (ActionView::Respond {
                outcome: OutcomeView::Frame { bytes: composed(selection), report: None },
            })
            &&& end is Idle
        }),
{
}

/// The stage of a worker after it took the events one after the other.
pub open spec fn ran(stage: StageView, events: Seq<EventView>) -> StageView
    decreases events.len(),
{
    if events.len() == 0 {
        stage
    } else {
        stepped(ran(stage, events.drop_last()), events.last()).0
    }
}

/// The number of handles that the worker took over the events.
pub open spec fn handles_taken(stage: StageView, events: Seq<EventView>) -> nat
    decreases events.len(),
{
    if events.len() == 0 {
        0
    } else {
        let before = ran(stage, events.drop_last());
        let taken: nat = if before is Acquiring && events.last() is Acquired {
            1
        } else {
            0
        };
        handles_taken(stage, events.drop_last()) + taken
    }
}

/// The number of releases that the worker asked for over the events.
pub open spec fn releases_asked(stage: StageView, events: Seq<EventView>) -> nat
    decreases events.len(),
{
    if events.len() == 0 {
        0
    } else {
        let before = ran(stage, events.drop_last());
        let asked: nat = if stepped(before, events.last()).1 is Release {
            1
        } else {
            0
        };
        releases_asked(stage, events.drop_last()) + asked
    }
}

/// No handle is ever lost: whatever events a worker meets from `Idle`
/// on, failures and events out of turn among them, it has asked for the
/// release of every handle it took, but for the one it is working with
/// while it selects or records.
pub proof fn lemma_no_handle_is_lost(events: Seq<EventView>)
    ensures
        handles_taken(StageView::Idle, events) == releases_asked(StageView::Idle, events) + (if ran(
            StageView::Idle,
            events,
        ) is Selecting || ran(StageView::Idle, events) is Recording {
            1nat
        } else {
            0nat
        }),
    decreases events.len(),
{
    if events.len() > 0 {
        lemma_no_handle_is_lost(events.drop_last());
    }
}

/// Frame requests fail closed: whatever events a worker meets from `Idle`
/// on, the stage it reaches is sound, so that the next answer carries a
/// whole frame or none.
pub proof fn lemma_every_stage_is_sound(events: Seq<EventView>)
    requires
        forall|i: int|
            0 <= i < events.len() ==> (#[trigger] events[i] matches EventView::Selected {
                selection,
            } ==> selection.wf()),
    ensures
        sound(ran(StageView::Idle, events)),
    decreases events.len(),
{
    if events.len() > 0 {
        let earlier = events.drop_last();
        assert forall|i: int| 0 <= i < earlier.len() implies (
        #[trigger] earlier[i] matches EventView::Selected { selection } ==> selection.wf()) by {
            assert(earlier[i] == events[i]);
        }
        lemma_every_stage_is_sound(earlier);
        assert(events.last() == events[events.len() - 1]);
        lemma_step_keeps_sound(ran(StageView::Idle, earlier), events.last());
    }
}

} // verus!
