//! Events that workers report about their progress through a job cycle.

use vstd::prelude::*;

verus! {

/// Why a worker could not obtain a job from its node.
#[derive(Debug, PartialEq, Eq)]
pub enum SnarkWorkerJobGetError {
    NoAvailableJob,
    Other { error: String },
}

/// Mathematical model of [`SnarkWorkerJobGetError`].
pub enum JobGetErrorView {
    NoAvailableJob,
    Other { error: Seq<char> },
}

impl View for SnarkWorkerJobGetError {
    type V = JobGetErrorView;

    open spec fn view(&self) -> JobGetErrorView {
        match *self {
            SnarkWorkerJobGetError::NoAvailableJob => JobGetErrorView::NoAvailableJob,
            SnarkWorkerJobGetError::Other { error } => JobGetErrorView::Other { error: error@ },
        }
    }
}

impl Clone for SnarkWorkerJobGetError {
    fn clone(&self) -> (copy: Self)
        ensures
            copy == *self,
    {
        match self {
            SnarkWorkerJobGetError::NoAvailableJob => SnarkWorkerJobGetError::NoAvailableJob,
            SnarkWorkerJobGetError::Other { error } => SnarkWorkerJobGetError::Other {
                error: error.clone(),
            },
        }
    }
}

/// One report from a worker. `time` is the worker's own wall-clock reading;
/// the `*_node_*` fields are optional readings taken on the node's side.
#[derive(Debug, PartialEq, Eq)]
#[allow(inconsistent_fields)]
pub enum SnarkWorkerStatsPut {
    Register {
        time: u64,
    },
    JobGetInit {
        time: u64,
    },
    JobGetError {
        time: u64,
        job_get_node_received_t: Option<u64>,
        job_get_node_request_work_init_t: Option<u64>,
        job_get_node_request_work_success_t: Option<u64>,
        error: SnarkWorkerJobGetError,
    },
    JobGetSuccess {
        time: u64,
        job_get_node_received_t: Option<u64>,
        job_get_node_request_work_init_t: Option<u64>,
        job_get_node_request_work_success_t: Option<u64>,
        ids: String,
    },
    WorkCreateError {
        time: u64,
        ids: String,
        error: String,
    },
    WorkCreateSuccess {
        time: u64,
        ids: String,
    },
    WorkSubmitError {
        time: u64,
        work_submit_node_received_t: Option<u64>,
        work_submit_node_add_work_init_t: Option<u64>,
        work_submit_node_add_work_success_t: Option<u64>,
        ids: String,
        error: String,
    },
    WorkSubmitSuccess {
        time: u64,
        work_submit_node_received_t: Option<u64>,
        work_submit_node_add_work_init_t: Option<u64>,
        work_submit_node_add_work_success_t: Option<u64>,
        ids: String,
    },
}

/// Mathematical model of [`SnarkWorkerStatsPut`].
#[allow(inconsistent_fields)]
pub enum StatsPutView {
    Register {
        time: u64,
    },
    JobGetInit {
        time: u64,
    },
    JobGetError {
        time: u64,
        job_get_node_received_t: Option<u64>,
        job_get_node_request_work_init_t: Option<u64>,
        job_get_node_request_work_success_t: Option<u64>,
        error: JobGetErrorView,
    },
    JobGetSuccess {
        time: u64,
        job_get_node_received_t: Option<u64>,
        job_get_node_request_work_init_t: Option<u64>,
        job_get_node_request_work_success_t: Option<u64>,
        ids: Seq<char>,
    },
    WorkCreateError {
        time: u64,
        ids: Seq<char>,
        error: Seq<char>,
    },
    WorkCreateSuccess {
        time: u64,
        ids: Seq<char>,
    },
    WorkSubmitError {
        time: u64,
        work_submit_node_received_t: Option<u64>,
        work_submit_node_add_work_init_t: Option<u64>,
        work_submit_node_add_work_success_t: Option<u64>,
        ids: Seq<char>,
        error: Seq<char>,
    },
    WorkSubmitSuccess {
        time: u64,
        work_submit_node_received_t: Option<u64>,
        work_submit_node_add_work_init_t: Option<u64>,
        work_submit_node_add_work_success_t: Option<u64>,
        ids: Seq<char>,
    },
}

impl View for SnarkWorkerStatsPut {
    type V = StatsPutView;

    open spec fn view(&self) -> StatsPutView {
        match *self {
            SnarkWorkerStatsPut::Register { time } => StatsPutView::Register { time },
            SnarkWorkerStatsPut::JobGetInit { time } => StatsPutView::JobGetInit { time },
            SnarkWorkerStatsPut::JobGetError {
                time,
                job_get_node_received_t,
                job_get_node_request_work_init_t,
                job_get_node_request_work_success_t,
                error,
            } => StatsPutView::JobGetError {
                time,
                job_get_node_received_t,
                job_get_node_request_work_init_t,
                job_get_node_request_work_success_t,
                error: error@,
            },
            SnarkWorkerStatsPut::JobGetSuccess {
                time,
                job_get_node_received_t,
                job_get_node_request_work_init_t,
                job_get_node_request_work_success_t,
                ids,
            } => StatsPutView::JobGetSuccess {
                time,
                job_get_node_received_t,
                job_get_node_request_work_init_t,
                job_get_node_request_work_success_t,
                ids: ids@,
            },
            SnarkWorkerStatsPut::WorkCreateError { time, ids, error } => {
                StatsPutView::WorkCreateError { time, ids: ids@, error: error@ }
            },
            SnarkWorkerStatsPut::WorkCreateSuccess { time, ids } => {
                StatsPutView::WorkCreateSuccess { time, ids: ids@ }
            },
            SnarkWorkerStatsPut::WorkSubmitError {
                time,
                work_submit_node_received_t,
                work_submit_node_add_work_init_t,
                work_submit_node_add_work_success_t,
                ids,
                error,
            } => StatsPutView::WorkSubmitError {
                time,
                work_submit_node_received_t,
                work_submit_node_add_work_init_t,
                work_submit_node_add_work_success_t,
                ids: ids@,
                error: error@,
            },
            SnarkWorkerStatsPut::WorkSubmitSuccess {
                time,
                work_submit_node_received_t,
                work_submit_node_add_work_init_t,
                work_submit_node_add_work_success_t,
                ids,
            } => StatsPutView::WorkSubmitSuccess {
                time,
                work_submit_node_received_t,
                work_submit_node_add_work_init_t,
                work_submit_node_add_work_success_t,
                ids: ids@,
            },
        }
    }
}

impl Clone for SnarkWorkerStatsPut {
    fn clone(&self) -> (copy: Self)
        ensures
            copy == *self,
    {
        match self {
            SnarkWorkerStatsPut::Register { time } => SnarkWorkerStatsPut::Register { time: *time },
            SnarkWorkerStatsPut::JobGetInit { time } => SnarkWorkerStatsPut::JobGetInit {
                time: *time,
            },
            SnarkWorkerStatsPut::JobGetError {
                time,
                job_get_node_received_t,
                job_get_node_request_work_init_t,
                job_get_node_request_work_success_t,
                error,
            } => SnarkWorkerStatsPut::JobGetError {
                time: *time,
                job_get_node_received_t: *job_get_node_received_t,
                job_get_node_request_work_init_t: *job_get_node_request_work_init_t,
                job_get_node_request_work_success_t: *job_get_node_request_work_success_t,
                error: error.clone(),
            },
            SnarkWorkerStatsPut::JobGetSuccess {
                time,
                job_get_node_received_t,
                job_get_node_request_work_init_t,
                job_get_node_request_work_success_t,
                ids,
            } => SnarkWorkerStatsPut::JobGetSuccess {
                time: *time,
                job_get_node_received_t: *job_get_node_received_t,
                job_get_node_request_work_init_t: *job_get_node_request_work_init_t,
                job_get_node_request_work_success_t: *job_get_node_request_work_success_t,
                ids: ids.clone(),
            },
            SnarkWorkerStatsPut::WorkCreateError { time, ids, error } => {
                SnarkWorkerStatsPut::WorkCreateError {
                    time: *time,
                    ids: ids.clone(),
                    error: error.clone(),
                }
            },
            SnarkWorkerStatsPut::WorkCreateSuccess { time, ids } => {
                SnarkWorkerStatsPut::WorkCreateSuccess { time: *time, ids: ids.clone() }
            },
            SnarkWorkerStatsPut::WorkSubmitError {
                time,
                work_submit_node_received_t,
                work_submit_node_add_work_init_t,
                work_submit_node_add_work_success_t,
                ids,
                error,
            } => SnarkWorkerStatsPut::WorkSubmitError {
                time: *time,
                work_submit_node_received_t: *work_submit_node_received_t,
                work_submit_node_add_work_init_t: *work_submit_node_add_work_init_t,
                work_submit_node_add_work_success_t: *work_submit_node_add_work_success_t,
                ids: ids.clone(),
                error: error.clone(),
            },
            SnarkWorkerStatsPut::WorkSubmitSuccess {
                time,
                work_submit_node_received_t,
                work_submit_node_add_work_init_t,
                work_submit_node_add_work_success_t,
                ids,
            } => SnarkWorkerStatsPut::WorkSubmitSuccess {
                time: *time,
                work_submit_node_received_t: *work_submit_node_received_t,
                work_submit_node_add_work_init_t: *work_submit_node_add_work_init_t,
                work_submit_node_add_work_success_t: *work_submit_node_add_work_success_t,
                ids: ids.clone(),
            },
        }
    }
}

impl DeepView for SnarkWorkerStatsPut {
    type V = StatsPutView;

    open spec fn deep_view(&self) -> StatsPutView {
        self@
    }
}

impl StatsPutView {
    /// The worker's clock reading that the event carries.
    pub open spec fn time(self) -> u64 {
        match self {
            StatsPutView::Register { time } => time,
            StatsPutView::JobGetInit { time } => time,
            StatsPutView::JobGetError { time, .. } => time,
            StatsPutView::JobGetSuccess { time, .. } => time,
            StatsPutView::WorkCreateError { time, .. } => time,
            StatsPutView::WorkCreateSuccess { time, .. } => time,
            StatsPutView::WorkSubmitError { time, .. } => time,
            StatsPutView::WorkSubmitSuccess { time, .. } => time,
        }
    }

    /// The batch identifier that the event names, if it names one.
    pub open spec fn ids(self) -> Option<Seq<char>> {
        match self {
            StatsPutView::JobGetSuccess { ids, .. } => Some(ids),
            StatsPutView::WorkCreateError { ids, .. } => Some(ids),
            StatsPutView::WorkCreateSuccess { ids, .. } => Some(ids),
            StatsPutView::WorkSubmitError { ids, .. } => Some(ids),
            StatsPutView::WorkSubmitSuccess { ids, .. } => Some(ids),
            _ => None,
        }
    }
}

} // verus!
