//! The position of a worker within one job cycle, and the rule by which a
//! reported event moves it on.
//!
//! A cycle runs `JobGetPending`, `WorkCreatePending`, `WorkSubmitPending`,
//! `WorkSubmitSuccess`; each pending stage may instead end the cycle in its
//! error stage. Every stage keeps all readings gathered before it.

use crate::event::{JobGetErrorView, SnarkWorkerJobGetError, SnarkWorkerStatsPut, StatsPutView};
use vstd::prelude::*;

verus! {

/// A snapshot of a worker's progress through one job cycle.
#[derive(Debug, PartialEq, Eq)]
#[allow(inconsistent_fields)]
pub enum SnarkWorkerState {
    Registered {
        registered_t: u64,
    },
    JobGetPending {
        job_get_init_t: u64,
    },
    JobGetError {
        job_get_init_t: u64,
        job_get_node_received_t: Option<u64>,
        job_get_node_request_work_init_t: Option<u64>,
        job_get_node_request_work_success_t: Option<u64>,
        job_get_error_t: u64,
        error: SnarkWorkerJobGetError,
    },
    WorkCreatePending {
        job_get_init_t: u64,
        job_get_node_received_t: Option<u64>,
        job_get_node_request_work_init_t: Option<u64>,
        job_get_node_request_work_success_t: Option<u64>,
        job_get_success_t: u64,
        ids: String,
    },
    WorkCreateError {
        job_get_init_t: u64,
        job_get_node_received_t: Option<u64>,
        job_get_node_request_work_init_t: Option<u64>,
        job_get_node_request_work_success_t: Option<u64>,
        job_get_success_t: u64,
        work_create_error_t: u64,
        ids: String,
        error: String,
    },
    WorkSubmitPending {
        job_get_init_t: u64,
        job_get_node_received_t: Option<u64>,
        job_get_node_request_work_init_t: Option<u64>,
        job_get_node_request_work_success_t: Option<u64>,
        job_get_success_t: u64,
        work_create_success_t: u64,
        ids: String,
    },
    WorkSubmitError {
        job_get_init_t: u64,
        job_get_node_received_t: Option<u64>,
        job_get_node_request_work_init_t: Option<u64>,
        job_get_node_request_work_success_t: Option<u64>,
        job_get_success_t: u64,
        work_create_success_t: u64,
        work_submit_error_t: u64,
        ids: String,
        error: String,
    },
    WorkSubmitSuccess {
        job_get_init_t: u64,
        job_get_node_received_t: Option<u64>,
        job_get_node_request_work_init_t: Option<u64>,
        job_get_node_request_work_success_t: Option<u64>,
        job_get_success_t: u64,
        work_create_success_t: u64,
        work_submit_node_received_t: Option<u64>,
        work_submit_node_add_work_init_t: Option<u64>,
        work_submit_node_add_work_success_t: Option<u64>,
        work_submit_success_t: u64,
        ids: String,
    },
}

/// Mathematical model of [`SnarkWorkerState`].
#[allow(inconsistent_fields)]
pub enum StateView {
    Registered {
        registered_t: u64,
    },
    JobGetPending {
        job_get_init_t: u64,
    },
    JobGetError {
        job_get_init_t: u64,
        job_get_node_received_t: Option<u64>,
        job_get_node_request_work_init_t: Option<u64>,
        job_get_node_request_work_success_t: Option<u64>,
        job_get_error_t: u64,
        error: JobGetErrorView,
    },
    WorkCreatePending {
        job_get_init_t: u64,
        job_get_node_received_t: Option<u64>,
        job_get_node_request_work_init_t: Option<u64>,
        job_get_node_request_work_success_t: Option<u64>,
        job_get_success_t: u64,
        ids: Seq<char>,
    },
    WorkCreateError {
        job_get_init_t: u64,
        job_get_node_received_t: Option<u64>,
        job_get_node_request_work_init_t: Option<u64>,
        job_get_node_request_work_success_t: Option<u64>,
        job_get_success_t: u64,
        work_create_error_t: u64,
        ids: Seq<char>,
        error: Seq<char>,
    },
    WorkSubmitPending {
        job_get_init_t: u64,
        job_get_node_received_t: Option<u64>,
        job_get_node_request_work_init_t: Option<u64>,
        job_get_node_request_work_success_t: Option<u64>,
        job_get_success_t: u64,
        work_create_success_t: u64,
        ids: Seq<char>,
    },
    WorkSubmitError {
        job_get_init_t: u64,
        job_get_node_received_t: Option<u64>,
        job_get_node_request_work_init_t: Option<u64>,
        job_get_node_request_work_success_t: Option<u64>,
        job_get_success_t: u64,
        work_create_success_t: u64,
        work_submit_error_t: u64,
        ids: Seq<char>,
        error: Seq<char>,
    },
    WorkSubmitSuccess {
        job_get_init_t: u64,
        job_get_node_received_t: Option<u64>,
        job_get_node_request_work_init_t: Option<u64>,
        job_get_node_request_work_success_t: Option<u64>,
        job_get_success_t: u64,
        work_create_success_t: u64,
        work_submit_node_received_t: Option<u64>,
        work_submit_node_add_work_init_t: Option<u64>,
        work_submit_node_add_work_success_t: Option<u64>,
        work_submit_success_t: u64,
        ids: Seq<char>,
    },
}

impl View for SnarkWorkerState {
    type V = StateView;

    open spec fn view(&self) -> StateView {
        match *self {
            SnarkWorkerState::Registered { registered_t } => StateView::Registered { registered_t },
            SnarkWorkerState::JobGetPending { job_get_init_t } => StateView::JobGetPending {
                job_get_init_t,
            },
            SnarkWorkerState::JobGetError {
                job_get_init_t,
                job_get_node_received_t,
                job_get_node_request_work_init_t,
                job_get_node_request_work_success_t,
                job_get_error_t,
                error,
            } => StateView::JobGetError {
                job_get_init_t,
                job_get_node_received_t,
                job_get_node_request_work_init_t,
                job_get_node_request_work_success_t,
                job_get_error_t,
                error: error@,
            },
            SnarkWorkerState::WorkCreatePending {
                job_get_init_t,
                job_get_node_received_t,
                job_get_node_request_work_init_t,
                job_get_node_request_work_success_t,
                job_get_success_t,
                ids,
            } => StateView::WorkCreatePending {
                job_get_init_t,
                job_get_node_received_t,
                job_get_node_request_work_init_t,
                job_get_node_request_work_success_t,
                job_get_success_t,
                ids: ids@,
            },
            SnarkWorkerState::WorkCreateError {
                job_get_init_t,
                job_get_node_received_t,
                job_get_node_request_work_init_t,
                job_get_node_request_work_success_t,
                job_get_success_t,
                work_create_error_t,
                ids,
                error,
            } => StateView::WorkCreateError {
                job_get_init_t,
                job_get_node_received_t,
                job_get_node_request_work_init_t,
                job_get_node_request_work_success_t,
                job_get_success_t,
                work_create_error_t,
                ids: ids@,
                error: error@,
            },
            SnarkWorkerState::WorkSubmitPending {
                job_get_init_t,
                job_get_node_received_t,
                job_get_node_request_work_init_t,
                job_get_node_request_work_success_t,
                job_get_success_t,
                work_create_success_t,
                ids,
            } => StateView::WorkSubmitPending {
                job_get_init_t,
                job_get_node_received_t,
                job_get_node_request_work_init_t,
                job_get_node_request_work_success_t,
                job_get_success_t,
                work_create_success_t,
                ids: ids@,
            },
            SnarkWorkerState::WorkSubmitError {
                job_get_init_t,
                job_get_node_received_t,
                job_get_node_request_work_init_t,
                job_get_node_request_work_success_t,
                job_get_success_t,
                work_create_success_t,
                work_submit_error_t,
                ids,
                error,
            } => StateView::WorkSubmitError {
                job_get_init_t,
                job_get_node_received_t,
                job_get_node_request_work_init_t,
                job_get_node_request_work_success_t,
                job_get_success_t,
                work_create_success_t,
                work_submit_error_t,
                ids: ids@,
                error: error@,
            },
            SnarkWorkerState::WorkSubmitSuccess {
                job_get_init_t,
                job_get_node_received_t,
                job_get_node_request_work_init_t,
                job_get_node_request_work_success_t,
                job_get_success_t,
                work_create_success_t,
                work_submit_node_received_t,
                work_submit_node_add_work_init_t,
                work_submit_node_add_work_success_t,
                work_submit_success_t,
                ids,
            } => StateView::WorkSubmitSuccess {
                job_get_init_t,
                job_get_node_received_t,
                job_get_node_request_work_init_t,
                job_get_node_request_work_success_t,
                job_get_success_t,
                work_create_success_t,
                work_submit_node_received_t,
                work_submit_node_add_work_init_t,
                work_submit_node_add_work_success_t,
                work_submit_success_t,
                ids: ids@,
            },
        }
    }
}

impl StateView {
    /// The snapshot with which every job cycle begins.
    pub open spec fn init(time: u64) -> StateView {
        StateView::JobGetPending { job_get_init_t: time }
    }

    /// When the cycle of this snapshot began: the registration time of a
    /// `Registered` snapshot, else the time of the cycle's `JobGetInit`.
    pub open spec fn start_time(self) -> u64 {
        match self {
            StateView::Registered { registered_t } => registered_t,
            StateView::JobGetPending { job_get_init_t } => job_get_init_t,
            StateView::JobGetError { job_get_init_t, .. } => job_get_init_t,
            StateView::WorkCreatePending { job_get_init_t, .. } => job_get_init_t,
            StateView::WorkCreateError { job_get_init_t, .. } => job_get_init_t,
            StateView::WorkSubmitPending { job_get_init_t, .. } => job_get_init_t,
            StateView::WorkSubmitError { job_get_init_t, .. } => job_get_init_t,
            StateView::WorkSubmitSuccess { job_get_init_t, .. } => job_get_init_t,
        }
    }

    /// The time of the event that brought the snapshot to its present stage.
    pub open spec fn end_time(self) -> u64 {
        match self {
            StateView::Registered { registered_t } => registered_t,
            StateView::JobGetPending { job_get_init_t } => job_get_init_t,
            StateView::JobGetError { job_get_error_t, .. } => job_get_error_t,
            StateView::WorkCreatePending { job_get_success_t, .. } => job_get_success_t,
            StateView::WorkCreateError { work_create_error_t, .. } => work_create_error_t,
            StateView::WorkSubmitPending { work_create_success_t, .. } => work_create_success_t,
            StateView::WorkSubmitError { work_submit_error_t, .. } => work_submit_error_t,
            StateView::WorkSubmitSuccess { work_submit_success_t, .. } => work_submit_success_t,
        }
    }

    /// Whether the snapshot waits for a further event of its cycle.
    pub open spec fn is_pending(self) -> bool {
        self is JobGetPending || self is WorkCreatePending || self is WorkSubmitPending
    }

    /// The batch identifier the cycle is bound to, once a job was obtained.
    pub open spec fn bound_ids(self) -> Option<Seq<char>> {
        match self {
            StateView::WorkCreatePending { ids, .. } => Some(ids),
            StateView::WorkCreateError { ids, .. } => Some(ids),
            StateView::WorkSubmitPending { ids, .. } => Some(ids),
            StateView::WorkSubmitError { ids, .. } => Some(ids),
            StateView::WorkSubmitSuccess { ids, .. } => Some(ids),
            _ => None,
        }
    }

    /// The time at which the cycle's job request began, once there is one.
    pub open spec fn job_get_init_t(self) -> Option<u64> {
        match self {
            StateView::Registered { .. } => None,
            _ => Some(self.start_time()),
        }
    }

    /// The node's three readings of the job request, once the request ended.
    pub open spec fn job_get_node_readings(self) -> Option<(Option<u64>, Option<u64>, Option<u64>)> {
        match self {
            StateView::Registered { .. } => None,
            StateView::JobGetPending { .. } => None,
            StateView::JobGetError {
                job_get_node_received_t,
                job_get_node_request_work_init_t,
                job_get_node_request_work_success_t,
                ..
            } => Some(
                (
                    job_get_node_received_t,
                    job_get_node_request_work_init_t,
                    job_get_node_request_work_success_t,
                ),
            ),
            StateView::WorkCreatePending {
                job_get_node_received_t,
                job_get_node_request_work_init_t,
                job_get_node_request_work_success_t,
                ..
            } => Some(
                (
                    job_get_node_received_t,
                    job_get_node_request_work_init_t,
                    job_get_node_request_work_success_t,
                ),
            ),
            StateView::WorkCreateError {
                job_get_node_received_t,
                job_get_node_request_work_init_t,
                job_get_node_request_work_success_t,
                ..
            } => Some(
                (
                    job_get_node_received_t,
                    job_get_node_request_work_init_t,
                    job_get_node_request_work_success_t,
                ),
            ),
            StateView::WorkSubmitPending {
                job_get_node_received_t,
                job_get_node_request_work_init_t,
                job_get_node_request_work_success_t,
                ..
            } => Some(
                (
                    job_get_node_received_t,
                    job_get_node_request_work_init_t,
                    job_get_node_request_work_success_t,
                ),
            ),
            StateView::WorkSubmitError {
                job_get_node_received_t,
                job_get_node_request_work_init_t,
                job_get_node_request_work_success_t,
                ..
            } => Some(
                (
                    job_get_node_received_t,
                    job_get_node_request_work_init_t,
                    job_get_node_request_work_success_t,
                ),
            ),
            StateView::WorkSubmitSuccess {
                job_get_node_received_t,
                job_get_node_request_work_init_t,
                job_get_node_request_work_success_t,
                ..
            } => Some(
                (
                    job_get_node_received_t,
                    job_get_node_request_work_init_t,
                    job_get_node_request_work_success_t,
                ),
            ),
        }
    }

    /// The time at which the job was obtained, once it was.
    pub open spec fn job_get_success_t(self) -> Option<u64> {
        match self {
            StateView::WorkCreatePending { job_get_success_t, .. } => Some(job_get_success_t),
            StateView::WorkCreateError { job_get_success_t, .. } => Some(job_get_success_t),
            StateView::WorkSubmitPending { job_get_success_t, .. } => Some(job_get_success_t),
            StateView::WorkSubmitError { job_get_success_t, .. } => Some(job_get_success_t),
            StateView::WorkSubmitSuccess { job_get_success_t, .. } => Some(job_get_success_t),
            _ => None,
        }
    }

    /// The time at which the work was created, once it was.
    pub open spec fn work_create_success_t(self) -> Option<u64> {
        match self {
            StateView::WorkSubmitPending { work_create_success_t, .. } => Some(
                work_create_success_t,
            ),
            StateView::WorkSubmitError { work_create_success_t, .. } => Some(work_create_success_t),
            StateView::WorkSubmitSuccess { work_create_success_t, .. } => Some(
                work_create_success_t,
            ),
            _ => None,
        }
    }

    /// Whether `later` holds every reading that the snapshot has gathered,
    /// each as it is here.
    pub open spec fn kept_by(self, later: StateView) -> bool {
        &&& self.job_get_init_t() is Some ==> later.job_get_init_t() == self.job_get_init_t()
        &&& self.job_get_node_readings() is Some ==> later.job_get_node_readings()
            == self.job_get_node_readings()
        &&& self.job_get_success_t() is Some ==> later.job_get_success_t()
            == self.job_get_success_t()
        &&& self.work_create_success_t() is Some ==> later.work_create_success_t()
            == self.work_create_success_t()
        &&& self.bound_ids() is Some ==> later.bound_ids() == self.bound_ids()
    }

    /// The transition table. `Some(next)` where `event` is the one step that
    /// the snapshot allows, with the batch identifier it is bound to;
    /// `None` for every other pair.
    pub open spec fn step(self, event: StatsPutView) -> Option<StateView> {
        match (self, event) {
            (
                StateView::JobGetPending { job_get_init_t },
                StatsPutView::JobGetError {
                    time,
                    job_get_node_received_t,
                    job_get_node_request_work_init_t,
                    job_get_node_request_work_success_t,
                    error,
                },
            ) => Some(
                StateView::JobGetError {
                    job_get_init_t,
                    job_get_node_received_t,
                    job_get_node_request_work_init_t,
                    job_get_node_request_work_success_t,
                    job_get_error_t: time,
                    error,
                },
            ),
            (
                StateView::JobGetPending { job_get_init_t },
                StatsPutView::JobGetSuccess {
                    time,
                    job_get_node_received_t,
                    job_get_node_request_work_init_t,
                    job_get_node_request_work_success_t,
                    ids,
                },
            ) => Some(
                StateView::WorkCreatePending {
                    job_get_init_t,
                    job_get_node_received_t,
                    job_get_node_request_work_init_t,
                    job_get_node_request_work_success_t,
                    job_get_success_t: time,
                    ids,
                },
            ),
            (
                StateView::WorkCreatePending {
                    job_get_init_t,
                    job_get_node_received_t,
                    job_get_node_request_work_init_t,
                    job_get_node_request_work_success_t,
                    job_get_success_t,
                    ids: expected_ids,
                },
                StatsPutView::WorkCreateError { time, ids, error },
            ) => if ids == expected_ids {
                Some(
                    StateView::WorkCreateError {
                        job_get_init_t,
                        job_get_node_received_t,
                        job_get_node_request_work_init_t,
                        job_get_node_request_work_success_t,
                        job_get_success_t,
                        work_create_error_t: time,
                        ids,
                        error,
                    },
                )
            } else {
                None
            },
            (
                StateView::WorkCreatePending {
                    job_get_init_t,
                    job_get_node_received_t,
                    job_get_node_request_work_init_t,
                    job_get_node_request_work_success_t,
                    job_get_success_t,
                    ids: expected_ids,
                },
                StatsPutView::WorkCreateSuccess { time, ids },
            ) => if ids == expected_ids {
                Some(
                    StateView::WorkSubmitPending {
                        job_get_init_t,
                        job_get_node_received_t,
                        job_get_node_request_work_init_t,
                        job_get_node_request_work_success_t,
                        job_get_success_t,
                        work_create_success_t: time,
                        ids,
                    },
                )
            } else {
                None
            },
            (
                StateView::WorkSubmitPending {
                    job_get_init_t,
                    job_get_node_received_t,
                    job_get_node_request_work_init_t,
                    job_get_node_request_work_success_t,
                    job_get_success_t,
                    work_create_success_t,
                    ids: expected_ids,
                },
                StatsPutView::WorkSubmitError { time, ids, error, .. },
            ) => if ids == expected_ids {
                Some(
                    StateView::WorkSubmitError {
                        job_get_init_t,
                        job_get_node_received_t,
                        job_get_node_request_work_init_t,
                        job_get_node_request_work_success_t,
                        job_get_success_t,
                        work_create_success_t,
                        work_submit_error_t: time,
                        ids,
                        error,
                    },
                )
            } else {
                None
            },
            (
                StateView::WorkSubmitPending {
                    job_get_init_t,
                    job_get_node_received_t,
                    job_get_node_request_work_init_t,
                    job_get_node_request_work_success_t,
                    job_get_success_t,
                    work_create_success_t,
                    ids: expected_ids,
                },
                StatsPutView::WorkSubmitSuccess {
                    time,
                    work_submit_node_received_t,
                    work_submit_node_add_work_init_t,
                    work_submit_node_add_work_success_t,
                    ids,
                },
            ) => if ids == expected_ids {
                Some(
                    StateView::WorkSubmitSuccess {
                        job_get_init_t,
                        job_get_node_received_t,
                        job_get_node_request_work_init_t,
                        job_get_node_request_work_success_t,
                        job_get_success_t,
                        work_create_success_t,
                        work_submit_node_received_t,
                        work_submit_node_add_work_init_t,
                        work_submit_node_add_work_success_t,
                        work_submit_success_t: time,
                        ids,
                    },
                )
            } else {
                None
            },
            _ => None,
        }
    }
}

impl StateView {
    /// The events that a snapshot allows: a pending stage allows the two
    /// events that end it, and from `WorkCreatePending` on only with the
    /// batch identifier that the cycle is bound to. `Registered` and the
    /// stages that end a cycle allow nothing.
    pub open spec fn allows(self, event: StatsPutView) -> bool {
        match self {
            StateView::JobGetPending { .. } => event is JobGetError || event is JobGetSuccess,
            StateView::WorkCreatePending { ids, .. } => (event is WorkCreateError
                || event is WorkCreateSuccess) && event.ids() == Some(ids),
            StateView::WorkSubmitPending { ids, .. } => (event is WorkSubmitError
                || event is WorkSubmitSuccess) && event.ids() == Some(ids),
            _ => false,
        }
    }

    /// The stage that an allowed event leads to.
    pub open spec fn follows(self, event: StatsPutView) -> bool {
        match event {
            StatsPutView::JobGetError { .. } => self is JobGetError,
            StatsPutView::JobGetSuccess { .. } => self is WorkCreatePending,
            StatsPutView::WorkCreateError { .. } => self is WorkCreateError,
            StatsPutView::WorkCreateSuccess { .. } => self is WorkSubmitPending,
            StatsPutView::WorkSubmitError { .. } => self is WorkSubmitError,
            StatsPutView::WorkSubmitSuccess { .. } => self is WorkSubmitSuccess,
            _ => false,
        }
    }

    /// The order of a cycle is strict. A snapshot takes a step exactly on
    /// the events it allows: job-get, then work-create, then work-submit,
    /// each ended by its success or its error, and nothing after an error or
    /// after the last success. A step keeps the cycle's start and its batch
    /// identifier, ends at the event's time, and leads to the stage that
    /// follows the event; a successful job-get binds the cycle to the batch
    /// identifier that the event names.
    pub proof fn lemma_step_order(self, event: StatsPutView)
        ensures
            self.step(event) is Some <==> self.allows(event),
            !self.is_pending() ==> self.step(event) is None,
            self.step(event) matches Some(next) ==> {
                &&& next.follows(event)
                &&& next.start_time() == self.start_time()
                &&& next.end_time() == event.time()
                &&& next.bound_ids() == if event is JobGetSuccess {
                    event.ids()
                } else {
                    self.bound_ids()
                }
            },
    {
    }

    /// A step loses nothing: the snapshot it leads to holds every reading
    /// gathered so far.
    pub proof fn lemma_step_keeps_readings(self, event: StatsPutView)
        ensures
            self.step(event) matches Some(next) ==> self.kept_by(next),
    {
    }

    /// Of two events that a snapshot allows, only the first to arrive is
    /// accepted: the step it leads to allows neither of them.
    pub proof fn lemma_first_event_wins(self, first: StatsPutView, second: StatsPutView)
        requires
            self.allows(first),
            self.allows(second),
        ensures
            self.step(first) matches Some(next) && next.step(second) is None && next.step(first)
                is None,
    {
    }

    /// An event that names another batch identifier than the one the cycle
    /// is bound to is never allowed.
    pub proof fn lemma_ids_must_match(self, event: StatsPutView)
        requires
            self.bound_ids() is Some,
            event.ids() != self.bound_ids(),
        ensures
            self.step(event) is None,
    {
    }

    /// The batch identifier named when the job was obtained is the one that
    /// the work-create events must name: any other is refused.
    pub proof fn lemma_work_create_needs_job_ids(self, got: StatsPutView, made: StatsPutView)
        requires
            self is JobGetPending,
            got is JobGetSuccess,
            made is WorkCreateSuccess || made is WorkCreateError,
            made.ids() != got.ids(),
        ensures
            self.step(got) is Some,
            self.step(got)->Some_0.step(made) is None,
    {
    }
}

impl SnarkWorkerState {
    /// The snapshot with which every job cycle begins.
    pub fn init(time: u64) -> (state: Self)
        ensures
            state@ == StateView::init(time),
    {
        SnarkWorkerState::JobGetPending { job_get_init_t: time }
    }

    /// When the cycle of this snapshot began.
    pub fn start_time(&self) -> (t: u64)
        ensures
            t == self@.start_time(),
    {
        match self {
            SnarkWorkerState::Registered { registered_t } => *registered_t,
            SnarkWorkerState::JobGetPending { job_get_init_t } => *job_get_init_t,
            SnarkWorkerState::JobGetError { job_get_init_t, .. } => *job_get_init_t,
            SnarkWorkerState::WorkCreatePending { job_get_init_t, .. } => *job_get_init_t,
            SnarkWorkerState::WorkCreateError { job_get_init_t, .. } => *job_get_init_t,
            SnarkWorkerState::WorkSubmitPending { job_get_init_t, .. } => *job_get_init_t,
            SnarkWorkerState::WorkSubmitError { job_get_init_t, .. } => *job_get_init_t,
            SnarkWorkerState::WorkSubmitSuccess { job_get_init_t, .. } => *job_get_init_t,
        }
    }

    /// The time of the event that brought the snapshot to its present stage.
    pub fn end_time(&self) -> (t: u64)
        ensures
            t == self@.end_time(),
    {
        match self {
            SnarkWorkerState::Registered { registered_t } => *registered_t,
            SnarkWorkerState::JobGetPending { job_get_init_t } => *job_get_init_t,
            SnarkWorkerState::JobGetError { job_get_error_t, .. } => *job_get_error_t,
            SnarkWorkerState::WorkCreatePending { job_get_success_t, .. } => *job_get_success_t,
            SnarkWorkerState::WorkCreateError { work_create_error_t, .. } => *work_create_error_t,
            SnarkWorkerState::WorkSubmitPending { work_create_success_t, .. } => {
                *work_create_success_t
            },
            SnarkWorkerState::WorkSubmitError { work_submit_error_t, .. } => *work_submit_error_t,
            SnarkWorkerState::WorkSubmitSuccess { work_submit_success_t, .. } => {
                *work_submit_success_t
            },
        }
    }

    /// The snapshot that `event` leads to, or the snapshot itself, handed
    /// back untouched, where the transition table has no entry for the pair.
    pub fn advance(self, event: SnarkWorkerStatsPut) -> (next: Result<Self, Self>)
        ensures
            match self@.step(event@) {
                Some(to) => next is Ok && next->Ok_0@ == to,
                None => next == Err::<Self, Self>(self),
            },
    {
        match (self, event) {
            (
                SnarkWorkerState::JobGetPending { job_get_init_t },
                SnarkWorkerStatsPut::JobGetError {
                    time,
                    job_get_node_received_t,
                    job_get_node_request_work_init_t,
                    job_get_node_request_work_success_t,
                    error,
                },
            ) => Ok(
                SnarkWorkerState::JobGetError {
                    job_get_init_t,
                    job_get_node_received_t,
                    job_get_node_request_work_init_t,
                    job_get_node_request_work_success_t,
                    job_get_error_t: time,
                    error,
                },
            ),
            (
                SnarkWorkerState::JobGetPending { job_get_init_t },
                SnarkWorkerStatsPut::JobGetSuccess {
                    time,
                    job_get_node_received_t,
                    job_get_node_request_work_init_t,
                    job_get_node_request_work_success_t,
                    ids,
                },
            ) => Ok(
                SnarkWorkerState::WorkCreatePending {
                    job_get_init_t,
                    job_get_node_received_t,
                    job_get_node_request_work_init_t,
                    job_get_node_request_work_success_t,
                    job_get_success_t: time,
                    ids,
                },
            ),
            (
                SnarkWorkerState::WorkCreatePending {
                    job_get_init_t,
                    job_get_node_received_t,
                    job_get_node_request_work_init_t,
                    job_get_node_request_work_success_t,
                    job_get_success_t,
                    ids: expected_ids,
                },
                SnarkWorkerStatsPut::WorkCreateError { time, ids, error },
            ) => {
                if ids == expected_ids {
                    Ok(
                        SnarkWorkerState::WorkCreateError {
                            job_get_init_t,
                            job_get_node_received_t,
                            job_get_node_request_work_init_t,
                            job_get_node_request_work_success_t,
                            job_get_success_t,
                            work_create_error_t: time,
                            ids,
                            error,
                        },
                    )
                } else {
                    Err(
                        SnarkWorkerState::WorkCreatePending {
                            job_get_init_t,
                            job_get_node_received_t,
                            job_get_node_request_work_init_t,
                            job_get_node_request_work_success_t,
                            job_get_success_t,
                            ids: expected_ids,
                        },
                    )
                }
            },
            (
                SnarkWorkerState::WorkCreatePending {
                    job_get_init_t,
                    job_get_node_received_t,
                    job_get_node_request_work_init_t,
                    job_get_node_request_work_success_t,
                    job_get_success_t,
                    ids: expected_ids,
                },
                SnarkWorkerStatsPut::WorkCreateSuccess { time, ids },
            ) => {
                if ids == expected_ids {
                    Ok(
                        SnarkWorkerState::WorkSubmitPending {
                            job_get_init_t,
                            job_get_node_received_t,
                            job_get_node_request_work_init_t,
                            job_get_node_request_work_success_t,
                            job_get_success_t,
                            work_create_success_t: time,
                            ids,
                        },
                    )
                } else {
                    Err(
                        SnarkWorkerState::WorkCreatePending {
                            job_get_init_t,
                            job_get_node_received_t,
                            job_get_node_request_work_init_t,
                            job_get_node_request_work_success_t,
                            job_get_success_t,
                            ids: expected_ids,
                        },
                    )
                }
            },
            (
                SnarkWorkerState::WorkSubmitPending {
                    job_get_init_t,
                    job_get_node_received_t,
                    job_get_node_request_work_init_t,
                    job_get_node_request_work_success_t,
                    job_get_success_t,
                    work_create_success_t,
                    ids: expected_ids,
                },
                SnarkWorkerStatsPut::WorkSubmitError { time, ids, error, .. },
            ) => {
                if ids == expected_ids {
                    Ok(
                        SnarkWorkerState::WorkSubmitError {
                            job_get_init_t,
                            job_get_node_received_t,
                            job_get_node_request_work_init_t,
                            job_get_node_request_work_success_t,
                            job_get_success_t,
                            work_create_success_t,
                            work_submit_error_t: time,
                            ids,
                            error,
                        },
                    )
                } else {
                    Err(
                        SnarkWorkerState::WorkSubmitPending {
                            job_get_init_t,
                            job_get_node_received_t,
                            job_get_node_request_work_init_t,
                            job_get_node_request_work_success_t,
                            job_get_success_t,
                            work_create_success_t,
                            ids: expected_ids,
                        },
                    )
                }
            },
            (
                SnarkWorkerState::WorkSubmitPending {
                    job_get_init_t,
                    job_get_node_received_t,
                    job_get_node_request_work_init_t,
                    job_get_node_request_work_success_t,
                    job_get_success_t,
                    work_create_success_t,
                    ids: expected_ids,
                },
                SnarkWorkerStatsPut::WorkSubmitSuccess {
                    time,
                    work_submit_node_received_t,
                    work_submit_node_add_work_init_t,
                    work_submit_node_add_work_success_t,
                    ids,
                },
            ) => {
                if ids == expected_ids {
                    Ok(
                        SnarkWorkerState::WorkSubmitSuccess {
                            job_get_init_t,
                            job_get_node_received_t,
                            job_get_node_request_work_init_t,
                            job_get_node_request_work_success_t,
                            job_get_success_t,
                            work_create_success_t,
                            work_submit_node_received_t,
                            work_submit_node_add_work_init_t,
                            work_submit_node_add_work_success_t,
                            work_submit_success_t: time,
                            ids,
                        },
                    )
                } else {
                    Err(
                        SnarkWorkerState::WorkSubmitPending {
                            job_get_init_t,
                            job_get_node_received_t,
                            job_get_node_request_work_init_t,
                            job_get_node_request_work_success_t,
                            job_get_success_t,
                            work_create_success_t,
                            ids: expected_ids,
                        },
                    )
                }
            },
            (state, _) => Err(state),
        }
    }

    /// Applies `v` to the snapshot. Returns `true` and moves the snapshot on
    /// where the transition table allows `v`; returns `false` and leaves the
    /// snapshot as it was for every other event.
    pub fn apply(&mut self, v: SnarkWorkerStatsPut) -> (accepted: bool)
        ensures
            accepted == (old(self)@.step(v@) is Some),
            accepted ==> final(self)@ == old(self)@.step(v@)->Some_0,
            !accepted ==> *final(self) == *old(self),
    {
        let mut current = SnarkWorkerState::init(0);
        core::mem::swap(self, &mut current);
        match current.advance(v) {
            Ok(next) => {
                *self = next;
                true
            },
            Err(unchanged) => {
                *self = unchanged;
                false
            },
        }
    }
}

impl Clone for SnarkWorkerState {
    fn clone(&self) -> (copy: Self)
        ensures
            copy == *self,
    {
        match self {
            SnarkWorkerState::Registered {
                registered_t,
            } => SnarkWorkerState::Registered {
                registered_t: *registered_t,
            },
            SnarkWorkerState::JobGetPending {
                job_get_init_t,
            } => SnarkWorkerState::JobGetPending {
                job_get_init_t: *job_get_init_t,
            },
            SnarkWorkerState::JobGetError {
                job_get_init_t,
                job_get_node_received_t,
                job_get_node_request_work_init_t,
                job_get_node_request_work_success_t,
                job_get_error_t,
                error,
            } => SnarkWorkerState::JobGetError {
                job_get_init_t: *job_get_init_t,
                job_get_node_received_t: *job_get_node_received_t,
                job_get_node_request_work_init_t: *job_get_node_request_work_init_t,
                job_get_node_request_work_success_t: *job_get_node_request_work_success_t,
                job_get_error_t: *job_get_error_t,
                error: error.clone(),
            },
            SnarkWorkerState::WorkCreatePending {
                job_get_init_t,
                job_get_node_received_t,
                job_get_node_request_work_init_t,
                job_get_node_request_work_success_t,
                job_get_success_t,
                ids,
            } => SnarkWorkerState::WorkCreatePending {
                job_get_init_t: *job_get_init_t,
                job_get_node_received_t: *job_get_node_received_t,
                job_get_node_request_work_init_t: *job_get_node_request_work_init_t,
                job_get_node_request_work_success_t: *job_get_node_request_work_success_t,
                job_get_success_t: *job_get_success_t,
                ids: ids.clone(),
            },
            SnarkWorkerState::WorkCreateError {
                job_get_init_t,
                job_get_node_received_t,
                job_get_node_request_work_init_t,
                job_get_node_request_work_success_t,
                job_get_success_t,
                work_create_error_t,
                ids,
                error,
            } => SnarkWorkerState::WorkCreateError {
                job_get_init_t: *job_get_init_t,
                job_get_node_received_t: *job_get_node_received_t,
                job_get_node_request_work_init_t: *job_get_node_request_work_init_t,
                job_get_node_request_work_success_t: *job_get_node_request_work_success_t,
                job_get_success_t: *job_get_success_t,
                work_create_error_t: *work_create_error_t,
                ids: ids.clone(),
                error: error.clone(),
            },
            SnarkWorkerState::WorkSubmitPending {
                job_get_init_t,
                job_get_node_received_t,
                job_get_node_request_work_init_t,
                job_get_node_request_work_success_t,
                job_get_success_t,
                work_create_success_t,
                ids,
            } => SnarkWorkerState::WorkSubmitPending {
                job_get_init_t: *job_get_init_t,
                job_get_node_received_t: *job_get_node_received_t,
                job_get_node_request_work_init_t: *job_get_node_request_work_init_t,
                job_get_node_request_work_success_t: *job_get_node_request_work_success_t,
                job_get_success_t: *job_get_success_t,
                work_create_success_t: *work_create_success_t,
                ids: ids.clone(),
            },
            SnarkWorkerState::WorkSubmitError {
                job_get_init_t,
                job_get_node_received_t,
                job_get_node_request_work_init_t,
                job_get_node_request_work_success_t,
                job_get_success_t,
                work_create_success_t,
                work_submit_error_t,
                ids,
                error,
            } => SnarkWorkerState::WorkSubmitError {
                job_get_init_t: *job_get_init_t,
                job_get_node_received_t: *job_get_node_received_t,
                job_get_node_request_work_init_t: *job_get_node_request_work_init_t,
                job_get_node_request_work_success_t: *job_get_node_request_work_success_t,
                job_get_success_t: *job_get_success_t,
                work_create_success_t: *work_create_success_t,
                work_submit_error_t: *work_submit_error_t,
                ids: ids.clone(),
                error: error.clone(),
            },
            SnarkWorkerState::WorkSubmitSuccess {
                job_get_init_t,
                job_get_node_received_t,
                job_get_node_request_work_init_t,
                job_get_node_request_work_success_t,
                job_get_success_t,
                work_create_success_t,
                work_submit_node_received_t,
                work_submit_node_add_work_init_t,
                work_submit_node_add_work_success_t,
                work_submit_success_t,
                ids,
            } => SnarkWorkerState::WorkSubmitSuccess {
                job_get_init_t: *job_get_init_t,
                job_get_node_received_t: *job_get_node_received_t,
                job_get_node_request_work_init_t: *job_get_node_request_work_init_t,
                job_get_node_request_work_success_t: *job_get_node_request_work_success_t,
                job_get_success_t: *job_get_success_t,
                work_create_success_t: *work_create_success_t,
                work_submit_node_received_t: *work_submit_node_received_t,
                work_submit_node_add_work_init_t: *work_submit_node_add_work_init_t,
                work_submit_node_add_work_success_t: *work_submit_node_add_work_success_t,
                work_submit_success_t: *work_submit_success_t,
                ids: ids.clone(),
            },
        }
    }
}

impl DeepView for SnarkWorkerState {
    type V = StateView;

    open spec fn deep_view(&self) -> StateView {
        self@
    }
}

impl Default for SnarkWorkerState {
    fn default() -> (state: Self)
        ensures
            state@ == StateView::init(0),
    {
        SnarkWorkerState::JobGetPending { job_get_init_t: 0 }
    }
}

} // verus!
