//! Probing one candidate directory, step by step.
//!
//! One probe runs on its own task. The task asks the outside world one
//! question at a time — is there a repository marker, does the repository
//! open, what is its head called, how many status entries are pending, what
//! did the update run print — and feeds each answer back into [`step`]. The
//! machine decides everything else: when to stop silently, when to skip the
//! update because the tree is dirty, and what record to emit.
use vstd::prelude::*;

use crate::report::Elapsed;
use crate::report::InspectionResult;
use crate::report::ResultModel;
use crate::text::trimmed;

verus! {

/// Where one probe stands. Each state but the last two names the question
/// the surrounding task must answer next.
pub enum ProbeState {
    /// Waiting to hear whether the directory holds a repository marker.
    CheckingMarker { path: String },
    /// Waiting to hear whether the marked directory opened as a repository.
    Opening { path: String },
    /// Waiting for the name of the head reference.
    ReadingHead { path: String },
    /// Waiting for the count of pending status entries.
    CheckingStatus { path: String, branch: String },
    /// Waiting for the captured output and duration of the update run.
    Updating { path: String, branch: String },
    /// The probe is done and this record must be sent to the aggregator.
    Emitting { result: InspectionResult },
    /// The probe is done and nothing is sent: the directory was no
    /// repository, or it failed to open or to report a head.
    Finished,
}

/// One answer from the outside world.
pub enum ProbeEvent {
    /// Whether a repository marker exists under the path.
    MarkerChecked { present: bool },
    /// Whether opening the marked directory as a repository succeeded.
    OpenFinished { ok: bool },
    /// The head reference name, or `None` when it could not be read.
    HeadRead { name: Option<String> },
    /// How many status entries are pending; zero means clean.
    StatusCounted { pending: u64 },
    /// What the update run printed and how long it took.
    UpdateRan { output: String, elapsed: Elapsed },
}

/// How the machine moves: `r` is the state after `e` arrives in state `s`.
///
/// A marker that is absent, an open or head read that failed, or an answer
/// that does not belong to the state end the probe with nothing to emit. A
/// pending status entry makes the repository dirty, which skips the update;
/// a clean tree waits for the update run. An emitted record survives any
/// further answer unchanged.
pub open spec fn probe_step(s: ProbeState, e: ProbeEvent, r: ProbeState) -> bool {
    match s {
        ProbeState::CheckingMarker { path } => match e {
            ProbeEvent::MarkerChecked { present } => if present {
                &&& r matches ProbeState::Opening { path: p }
                &&& p@ == path@
            } else {
                r is Finished
            },
            _ => r is Finished,
        },
        ProbeState::Opening { path } => match e {
            ProbeEvent::OpenFinished { ok } => if ok {
                &&& r matches ProbeState::ReadingHead { path: p }
                &&& p@ == path@
            } else {
                r is Finished
            },
            _ => r is Finished,
        },
        ProbeState::ReadingHead { path } => match e {
            ProbeEvent::HeadRead { name } => match name {
                Some(b) => {
                    &&& r matches ProbeState::CheckingStatus { path: p, branch }
                    &&& p@ == path@
                    &&& branch@ == b@
                },
                None => r is Finished,
            },
            _ => r is Finished,
        },
        ProbeState::CheckingStatus { path, branch } => match e {
            ProbeEvent::StatusCounted { pending } => if pending > 0 {
                &&& r matches ProbeState::Emitting { result }
                &&& result@ == (ResultModel {
                    repo: path@,
                    dirty: true,
                    branch: branch@,
                    message: Seq::<char>::empty(),
                    elapsed: None,
                })
            } else {
                &&& r matches ProbeState::Updating { path: p, branch: b }
                &&& p@ == path@
                &&& b@ == branch@
            },
            _ => r is Finished,
        },
        ProbeState::Updating { path, branch } => match e {
            ProbeEvent::UpdateRan { output, elapsed } => {
                &&& r matches ProbeState::Emitting { result }
                &&& result@ == (ResultModel {
                    repo: path@,
                    dirty: false,
                    branch: branch@,
                    message: trimmed(output@),
                    elapsed: Some(elapsed),
                })
            },
            _ => r is Finished,
        },
        ProbeState::Emitting { result } => {
            &&& r matches ProbeState::Emitting { result: kept }
            &&& kept@ == result@
        },
        ProbeState::Finished => r is Finished,
    }
}

/// Move the probe one step: in state `s`, the outside world answered `e`.
pub fn step(s: ProbeState, e: ProbeEvent) -> (r: ProbeState)
    ensures
        probe_step(s, e, r),
{
    match (s, e) {
        (ProbeState::CheckingMarker { path }, ProbeEvent::MarkerChecked { present }) => {
            if present {
                ProbeState::Opening { path }
            } else {
                ProbeState::Finished
            }
        },
        (ProbeState::Opening { path }, ProbeEvent::OpenFinished { ok }) => {
            if ok {
                ProbeState::ReadingHead { path }
            } else {
                ProbeState::Finished
            }
        },
        (ProbeState::ReadingHead { path }, ProbeEvent::HeadRead { name }) => {
            match name {
                Some(branch) => ProbeState::CheckingStatus { path, branch },
                None => ProbeState::Finished,
            }
        },
        (ProbeState::CheckingStatus { path, branch }, ProbeEvent::StatusCounted { pending }) => {
            if pending > 0 {
                ProbeState::Emitting { result: InspectionResult::for_dirty(path, branch) }
            } else {
                ProbeState::Updating { path, branch }
            }
        },
        (ProbeState::Updating { path, branch }, ProbeEvent::UpdateRan { output, elapsed }) => {
            ProbeState::Emitting {
                result: InspectionResult::for_clean(path, branch, output.as_str(), elapsed),
            }
        },
        (ProbeState::Emitting { result }, _) => ProbeState::Emitting { result },
        (_, _) => ProbeState::Finished,
    }
}

/// Whether a working tree with `pending` status entries is clean.
pub fn is_clean(pending: u64) -> (r: bool)
    ensures
        r == (pending == 0),
{
    pending == 0
}

/// Everything the outside world would answer for one candidate directory:
/// whether a marker exists, whether the repository opens, the head name if
/// one can be read, the pending status count, and what the update run would
/// print and take. The last three matter only as far as the probe gets.
pub struct Observation {
    pub path: String,
    pub marker: bool,
    pub opened: bool,
    pub head: Option<String>,
    pub pending: u64,
    pub update_output: String,
    pub update_elapsed: Elapsed,
}

/// The model of an [`Observation`], with text as character sequences.
pub ghost struct ObsModel {
    pub path: Seq<char>,
    pub marker: bool,
    pub opened: bool,
    pub head: Option<Seq<char>>,
    pub pending: u64,
    pub update_output: Seq<char>,
    pub update_elapsed: Elapsed,
}

impl View for Observation {
    type V = ObsModel;

    open spec fn view(&self) -> ObsModel {
        ObsModel {
            path: self.path@,
            marker: self.marker,
            opened: self.opened,
            head: match self.head {
                Some(b) => Some(b@),
                None => None,
            },
            pending: self.pending,
            update_output: self.update_output@,
            update_elapsed: self.update_elapsed,
        }
    }
}

/// What a probe of a candidate answering as `o` emits: nothing without a
/// marker, nothing when the open or the head read fails, and otherwise one
/// record — dirty with an empty message when status entries are pending,
/// clean with the trimmed update output and its duration when none are.
pub open spec fn outcome_of(o: ObsModel) -> Option<ResultModel> {
    if !o.marker {
        None
    } else if !o.opened {
        None
    } else {
        match o.head {
            None => None,
            Some(branch) => Some(
                if o.pending > 0 {
                    ResultModel {
                        repo: o.path,
                        dirty: true,
                        branch,
                        message: Seq::<char>::empty(),
                        elapsed: None,
                    }
                } else {
                    ResultModel {
                        repo: o.path,
                        dirty: false,
                        branch,
                        message: trimmed(o.update_output),
                        elapsed: Some(o.update_elapsed),
                    }
                },
            ),
        }
    }
}

/// Scanning an unmodified repository again classifies it the same way: two
/// observations of one candidate that agree on the marker, on whether the
/// repository opens, on the head name, and on whether status entries are
/// pending — though not necessarily on what the update run prints or takes —
/// either both emit or both stay silent, and any two emitted records carry
/// the same path, the same dirty flag and the same branch.
pub proof fn lemma_rescan_same_classification(o1: ObsModel, o2: ObsModel)
    requires
        o1.path == o2.path,
        o1.marker == o2.marker,
        o1.opened == o2.opened,
        o1.head == o2.head,
        (o1.pending == 0) <==> (o2.pending == 0),
    ensures
        outcome_of(o1) is Some <==> outcome_of(o2) is Some,
        outcome_of(o1) matches Some(r1) ==> outcome_of(o2) matches Some(r2) && r1.repo == r2.repo
            && r1.dirty == r2.dirty && r1.branch == r2.branch,
{
}

/// Run one whole probe against recorded answers: feed the machine every
/// answer in protocol order and hand back what it emits. The machine ends
/// in an emitting or finished state exactly as [`outcome_of`] says.
pub fn replay(o: Observation) -> (r: Option<InspectionResult>)
    ensures
        match r {
            Some(res) => outcome_of(o@) == Some(res@),
            None => outcome_of(o@) is None,
        },
{
    let Observation { path, marker, opened, head, pending, update_output, update_elapsed } = o;
    let mut st = ProbeState::CheckingMarker { path };
    st = step(st, ProbeEvent::MarkerChecked { present: marker });
    st = step(st, ProbeEvent::OpenFinished { ok: opened });
    st = step(st, ProbeEvent::HeadRead { name: head });
    st = step(st, ProbeEvent::StatusCounted { pending });
    st = step(st, ProbeEvent::UpdateRan { output: update_output, elapsed: update_elapsed });
    match st {
        ProbeState::Emitting { result } => Some(result),
        _ => None,
    }
}

} // verus!
