//! The decisions of the background poller: what a button press asks of it,
//! what it asks of the engine for each request, and which task lists it
//! fetches on each tick.

use vstd::prelude::*;
use crate::table::StatusConfig;

verus! {

/// What the user asks to be done with the selected tasks.
#[derive(Clone, Copy, Debug, PartialEq, Eq, Structural)]
pub enum Operation {
    Pause,
    Unpause,
    Remove,
}

/// A request from the window to the background poller.
#[derive(Debug, PartialEq, Eq)]
pub enum BackgroundTask {
    /// Fetch these task lists from now on.
    UpdateStatusConfig(StatusConfig),
    /// Resume the downloads with these GIDs.
    Unpause(Vec<String>),
    /// Remove the downloads with these GIDs.
    Remove(Vec<String>),
    /// Pause the downloads with these GIDs.
    Pause(Vec<String>),
}

/// One call that the poller makes on the engine for a single download.
#[derive(Clone, Debug, PartialEq, Eq)]
pub enum RpcCall {
    Pause(String),
    Unpause(String),
}

/// One task list that the poller asks the engine for.
#[derive(Clone, Copy, Debug, PartialEq, Eq, Structural)]
pub enum StatusQuery {
    /// The active downloads.
    TellActive,
    /// Up to `num` queued downloads, from position `offset`.
    TellWaiting { offset: i32, num: i32 },
    /// Up to `num` stopped downloads, from position `offset`.
    TellStopped { offset: i32, num: i32 },
}

/// The filter both the window and the poller start with: active and queued
/// downloads, not stopped ones.
pub open spec fn initial_filter() -> StatusConfig {
    StatusConfig { downloading: true, waiting: true, finished: false }
}

/// The filter the window's check buttons and the poller start with.
pub fn initial_status_config() -> (config: StatusConfig)
    ensures
        config == initial_filter(),
{
    let mut config = StatusConfig::default();
    config.downloading = true;
    config.waiting = true;
    config
}

/// The request that a press of an operation button sends for the selected
/// GIDs.
pub fn task_for_operation(operation: Operation, gid_vec: Vec<String>) -> (task: BackgroundTask)
    ensures
        match operation {
            Operation::Pause => task == BackgroundTask::Pause(gid_vec),
            Operation::Unpause => task == BackgroundTask::Unpause(gid_vec),
            Operation::Remove => task == BackgroundTask::Remove(gid_vec),
        },
{
    match operation {
        Operation::Pause => BackgroundTask::Pause(gid_vec),
        Operation::Unpause => BackgroundTask::Unpause(gid_vec),
        Operation::Remove => BackgroundTask::Remove(gid_vec),
    }
}

/// The engine calls for a request, one per GID in order: resuming for
/// `Unpause`, pausing for `Pause` and, as the poller does, pausing for
/// `Remove` too.
pub open spec fn calls_for(task: BackgroundTask) -> Seq<RpcCall> {
    match task {
        BackgroundTask::UpdateStatusConfig(_) => Seq::empty(),
        BackgroundTask::Unpause(gids) => gids@.map_values(|g: String| RpcCall::Unpause(g)),
        BackgroundTask::Pause(gids) => gids@.map_values(|g: String| RpcCall::Pause(g)),
        BackgroundTask::Remove(gids) => gids@.map_values(|g: String| RpcCall::Pause(g)),
    }
}

fn calls_for_gids(gids: Vec<String>, pause: bool) -> (calls: Vec<RpcCall>)
    ensures
        pause ==> calls@ == gids@.map_values(|g: String| RpcCall::Pause(g)),
        !pause ==> calls@ == gids@.map_values(|g: String| RpcCall::Unpause(g)),
{
    let mut calls: Vec<RpcCall> = Vec::new();
    let mut i: usize = 0;
    while i < gids.len()
        invariant
            i <= gids@.len(),
            calls@.len() == i,
            forall|j: int|
                0 <= j < i ==> #[trigger] calls@[j] == (if pause {
                    RpcCall::Pause(gids@[j])
                } else {
                    RpcCall::Unpause(gids@[j])
                }),
        decreases gids@.len() - i,
    {
        let gid = gids[i].clone();
        if pause {
            calls.push(RpcCall::Pause(gid));
        } else {
            calls.push(RpcCall::Unpause(gid));
        }
        i = i + 1;
    }
    if pause {
        assert(calls@ =~= gids@.map_values(|g: String| RpcCall::Pause(g)));
    } else {
        assert(calls@ =~= gids@.map_values(|g: String| RpcCall::Unpause(g)));
    }
    calls
}

/// Handles one request: a new filter replaces the current one and needs no
/// engine call; any other request leaves the filter as it is and yields the
/// engine calls of `calls_for`.
pub fn handle_background_task(config: &mut StatusConfig, task: BackgroundTask) -> (calls: Vec<
    RpcCall,
>)
    ensures
        match task {
            BackgroundTask::UpdateStatusConfig(c) => *final(config) == c,
            _ => *final(config) == *old(config),
        },
        calls@ == calls_for(task),
{
    match task {
        BackgroundTask::UpdateStatusConfig(c) => {
            *config = c;
            Vec::new()
        },
        BackgroundTask::Unpause(gids) => calls_for_gids(gids, false),
        BackgroundTask::Pause(gids) => calls_for_gids(gids, true),
        BackgroundTask::Remove(gids) => calls_for_gids(gids, true),
    }
}


/// Where a query stands in the order in which the table shows the lists.
pub open spec fn query_rank(q: StatusQuery) -> int {
    match q {
        StatusQuery::TellActive => 0,
        StatusQuery::TellWaiting { .. } => 1,
        StatusQuery::TellStopped { .. } => 2,
    }
}

/// Law: on each tick the active list is fetched exactly when the
/// "Downloading" filter is on, the first 99 queued tasks exactly when
/// "Waiting" is on, and the first 99 stopped tasks exactly when "Finished" is
/// on; nothing else is fetched, no list twice, and the lists come in the order
/// active, queued, stopped.
pub proof fn lemma_queries_follow_filter(config: StatusConfig)
    ensures
        queries_for(config).contains(StatusQuery::TellActive) == config.downloading,
        queries_for(config).contains(StatusQuery::TellWaiting { offset: 0, num: 99 })
            == config.waiting,
        queries_for(config).contains(StatusQuery::TellStopped { offset: 0, num: 99 })
            == config.finished,
        forall|i: int|
            0 <= i < queries_for(config).len() ==> {
                let q = #[trigger] queries_for(config)[i];
                ||| q == StatusQuery::TellActive
                ||| q == StatusQuery::TellWaiting { offset: 0, num: 99 }
                ||| q == StatusQuery::TellStopped { offset: 0, num: 99 }
            },
        forall|i: int, j: int|
            0 <= i < j < queries_for(config).len() ==> query_rank(queries_for(config)[i])
                < query_rank(queries_for(config)[j]),
{
    let q = queries_for(config);
    let a = StatusQuery::TellActive;
    let w = StatusQuery::TellWaiting { offset: 0, num: 99 };
    let st = StatusQuery::TellStopped { offset: 0, num: 99 };
    let sa: Seq<StatusQuery> = if config.downloading { seq![a] } else { Seq::empty() };
    let sw: Seq<StatusQuery> = if config.waiting { seq![w] } else { Seq::empty() };
    let ss: Seq<StatusQuery> = if config.finished { seq![st] } else { Seq::empty() };
    assert(q == sa + sw + ss);
    assert(q.len() == sa.len() + sw.len() + ss.len());
    assert forall|i: int| 0 <= i < q.len() implies (#[trigger] q[i] == a && i < sa.len()) || (
    q[i] == w && sa.len() <= i < sa.len() + sw.len()) || (q[i] == st && sa.len() + sw.len() <= i)
        by {
        if i < sa.len() {
            assert(q[i] == sa[i]);
        } else if i < sa.len() + sw.len() {
            assert(q[i] == sw[i - sa.len()]);
        } else {
            assert(q[i] == ss[i - sa.len() - sw.len()]);
        }
    }
    if config.downloading {
        assert(q[0] == a);
    }
    if config.waiting {
        assert(q[sa.len() as int] == w);
    }
    if config.finished {
        assert(q[(sa.len() + sw.len()) as int] == st);
    }
}

/// Law: a filter change replaces the filter and calls nothing; a Start
/// request resumes, and a Pause or a Remove request pauses, each selected GID
/// once, in the order given, whatever the number of GIDs; a Pause request
/// never resumes anything, and a Start request never pauses anything.
pub proof fn lemma_request_calls(task: BackgroundTask)
    ensures
        task is UpdateStatusConfig ==> calls_for(task).len() == 0,
        task matches BackgroundTask::Unpause(gids) ==> {
            &&& calls_for(task).len() == gids@.len()
            &&& forall|i: int|
                0 <= i < gids@.len() ==> #[trigger] calls_for(task)[i] == RpcCall::Unpause(
                    gids@[i],
                )
        },
        task matches BackgroundTask::Pause(gids) ==> {
            &&& calls_for(task).len() == gids@.len()
            &&& forall|i: int|
                0 <= i < gids@.len() ==> #[trigger] calls_for(task)[i] == RpcCall::Pause(gids@[i])
        },
        task matches BackgroundTask::Remove(gids) ==> {
            &&& calls_for(task).len() == gids@.len()
            &&& forall|i: int|
                0 <= i < gids@.len() ==> #[trigger] calls_for(task)[i] == RpcCall::Pause(gids@[i])
        },
        task is Pause ==> forall|i: int|
            0 <= i < calls_for(task).len() ==> #[trigger] calls_for(task)[i] is Pause,
        task is Unpause ==> forall|i: int|
            0 <= i < calls_for(task).len() ==> #[trigger] calls_for(task)[i] is Unpause,
{
}

/// The number of queued or stopped downloads asked for on each tick.
pub const LIST_LIMIT: i32 = 99;

/// The task lists fetched on a tick, in the order their tasks are shown:
/// the active ones when `downloading`, then up to 99 queued ones when
/// `waiting`, then up to 99 stopped ones when `finished`.
pub open spec fn queries_for(config: StatusConfig) -> Seq<StatusQuery> {
    (if config.downloading {
        seq![StatusQuery::TellActive]
    } else {
        Seq::empty()
    }) + (if config.waiting {
        seq![StatusQuery::TellWaiting { offset: 0, num: 99 }]
    } else {
        Seq::empty()
    }) + (if config.finished {
        seq![StatusQuery::TellStopped { offset: 0, num: 99 }]
    } else {
        Seq::empty()
    })
}

/// The task lists to fetch on a tick under `config`.
pub fn status_queries(config: &StatusConfig) -> (queries: Vec<StatusQuery>)
    ensures
        queries@ == queries_for(*config),
{
    let mut queries: Vec<StatusQuery> = Vec::new();
    if config.downloading {
        queries.push(StatusQuery::TellActive);
    }
    if config.waiting {
        queries.push(StatusQuery::TellWaiting { offset: 0, num: LIST_LIMIT });
    }
    if config.finished {
        queries.push(StatusQuery::TellStopped { offset: 0, num: LIST_LIMIT });
    }
    assert(queries@ =~= queries_for(*config));
    queries
}

} // verus!
