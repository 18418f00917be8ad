//! Starting and stopping the backend: in which order its parts come up, and
//! what happens once a shutdown is requested.
use vstd::prelude::*;

use crate::settings::Limit;
use crate::text::{contains_text, stands_at};

verus! {

/// How many messages each of the command channels holds.
pub const COMMAND_CAPACITY: usize = 16;

/// Every so many seconds what was added to the index is committed.
pub const COMMIT_SECONDS: u64 = 10;

/// What the migrator says of a migration whose file was removed later on.
pub const MISSING_MIGRATION: &'static str = "been applied but its file is missing";

/// A step of starting or stopping the backend.
#[derive(Clone, Copy, Debug, PartialEq, Eq, Structural)]
pub enum BackendStep {
    /// Requeue all in-flight tasks.
    ResetProcessing,
    /// Forget the lenses; they are read anew.
    ResetLenses,
    /// Give up: no channel from the scheduler to the crawlers has such a capacity.
    RejectCapacity,
    /// Open the channel from the scheduler to the crawlers, with this capacity.
    OpenCrawlQueue(usize),
    /// Open the channel for shutdown listeners, with this capacity.
    OpenShutdown(usize),
    /// Open the channel for crawler commands, with this capacity.
    OpenCrawler(usize),
    /// Open the channel for plugin commands, with this capacity.
    OpenPlugins(usize),
    /// Open the channel for pipeline commands, with this capacity.
    OpenPipelines(usize),
    /// Load and process pipeline commands.
    SpawnPipelines,
    /// Make the sender of crawler commands known to the state.
    ShareCrawler,
    /// Make the sender of plugin commands known to the state.
    SharePlugins,
    /// Make the sender of pipeline commands known to the state.
    SharePipelines,
    /// Check lenses for updates & add any bootstrapped URLs to crawler.
    SpawnLensWatcher,
    /// Crawl scheduler.
    SpawnManager,
    /// Crawlers.
    SpawnWorker,
    /// Commit anything added to the index, every so many seconds.
    SpawnCommits(u64),
    /// Plugin server.
    SpawnPlugins,
    /// API server.
    SpawnApi,
    /// Stop watching the lenses at once.
    AbortLensWatcher,
    /// Stop the plugin server at once.
    AbortPlugins,
    /// Tell all listeners to shut down.
    SendShutdown,
    /// Wait for the scheduler, the crawlers, the plugin server and the API server.
    Join,
}

/// The capacity of the channel from the scheduler to the crawlers: as many
/// tasks as may be in flight. There is none for a limit of zero, nor for one
/// that no channel can hold.
pub open spec fn channel_capacity(limit: Limit) -> Option<usize> {
    if 0 < limit.value() <= usize::MAX / 8 {
        Some(limit.value() as usize)
    } else {
        None
    }
}

/// The capacity of the channel from the scheduler to the crawlers.
pub fn crawl_queue_capacity(limit: Limit) -> (capacity: Option<usize>)
    ensures
        capacity == channel_capacity(limit),
        capacity matches Some(n) ==> 0 < n <= usize::MAX / 8 && n == limit.value(),
        capacity is None ==> limit.value() == 0 || limit.value() > usize::MAX / 8,
{
    let value = limit.value() as usize;
    if value > 0 && value <= usize::MAX / 8 {
        Some(value)
    } else {
        None
    }
}

/// What the start of the backend always begins with.
pub open spec fn reset_order() -> Seq<BackendStep> {
    seq![BackendStep::ResetProcessing, BackendStep::ResetLenses]
}

/// How the start of the backend goes on once the capacity is known.
pub open spec fn launch_order(capacity: usize) -> Seq<BackendStep> {
    seq![
        BackendStep::OpenCrawlQueue(capacity),
        BackendStep::OpenShutdown(COMMAND_CAPACITY),
        BackendStep::OpenCrawler(COMMAND_CAPACITY),
        BackendStep::OpenPlugins(COMMAND_CAPACITY),
        BackendStep::OpenPipelines(COMMAND_CAPACITY),
        BackendStep::SpawnPipelines,
        BackendStep::ShareCrawler,
        BackendStep::SharePlugins,
        BackendStep::SharePipelines,
        BackendStep::SpawnLensWatcher,
        BackendStep::SpawnManager,
        BackendStep::SpawnWorker,
        BackendStep::SpawnCommits(COMMIT_SECONDS),
        BackendStep::SpawnPlugins,
        BackendStep::SpawnApi,
    ]
}

/// The steps that start the backend, in order. Where the limit gives no channel
/// a capacity, nothing but the resets is done.
pub open spec fn startup_order(limit: Limit) -> Seq<BackendStep> {
    reset_order() + match channel_capacity(limit) {
        Some(capacity) => launch_order(capacity),
        None => seq![BackendStep::RejectCapacity],
    }
}

/// The steps that start the backend, in order. `limit` says how many tasks may
/// be in flight.
pub fn startup_steps(limit: Limit) -> (steps: Vec<BackendStep>)
    ensures
        steps@ == startup_order(limit),
{
    let capacity = match crawl_queue_capacity(limit) {
        Some(capacity) => capacity,
        None => {
            let steps = vec![
                BackendStep::ResetProcessing,
                BackendStep::ResetLenses,
                BackendStep::RejectCapacity,
            ];
            assert(steps@ =~= startup_order(limit));
            return steps;
        },
    };
    let steps = vec![
        BackendStep::ResetProcessing,
        BackendStep::ResetLenses,
        BackendStep::OpenCrawlQueue(capacity),
        BackendStep::OpenShutdown(COMMAND_CAPACITY),
        BackendStep::OpenCrawler(COMMAND_CAPACITY),
        BackendStep::OpenPlugins(COMMAND_CAPACITY),
        BackendStep::OpenPipelines(COMMAND_CAPACITY),
        BackendStep::SpawnPipelines,
        BackendStep::ShareCrawler,
        BackendStep::SharePlugins,
        BackendStep::SharePipelines,
        BackendStep::SpawnLensWatcher,
        BackendStep::SpawnManager,
        BackendStep::SpawnWorker,
        BackendStep::SpawnCommits(COMMIT_SECONDS),
        BackendStep::SpawnPlugins,
        BackendStep::SpawnApi,
    ];
    assert(steps@ =~= startup_order(limit));
    steps
}

/// The steps that stop the backend, in order. `requested` says whether the user
/// asked for it; else listening for the request has failed.
pub open spec fn shutdown_order(requested: bool) -> Seq<BackendStep> {
    if requested {
        seq![
            BackendStep::AbortLensWatcher,
            BackendStep::AbortPlugins,
            BackendStep::SendShutdown,
            BackendStep::Join,
        ]
    } else {
        seq![BackendStep::SendShutdown, BackendStep::Join]
    }
}

/// The steps that stop the backend, in order.
pub fn shutdown_steps(requested: bool) -> (steps: Vec<BackendStep>)
    ensures
        steps@ == shutdown_order(requested),
{
    if requested {
        vec![
            BackendStep::AbortLensWatcher,
            BackendStep::AbortPlugins,
            BackendStep::SendShutdown,
            BackendStep::Join,
        ]
    } else {
        vec![BackendStep::SendShutdown, BackendStep::Join]
    }
}

/// Whether the backend may start after the migrations of its database ended:
/// without a failure, or with one that is only the migrator being funky.
pub fn may_start(failure: Option<&str>) -> (start: bool)
    ensures
        start == match failure {
            Some(msg) => exists|at: int| stands_at(msg@, MISSING_MIGRATION@, at),
            None => true,
        },
        start <==> (failure matches Some(msg) ==> exists|at: int|
            stands_at(msg@, "been applied but its file is missing"@, at)),
{
    match failure {
        Some(msg) => contains_text(msg, MISSING_MIGRATION),
        None => true,
    }
}

/// Whether the first of the two steps comes before the second.
pub open spec fn precedes(steps: Seq<BackendStep>, first: BackendStep, second: BackendStep) -> bool {
    exists|i: int, j: int|
        0 <= i < j < steps.len() && #[trigger] steps[i] == first && #[trigger] steps[j] == second
}

/// Whether a step starts a part that takes or adds tasks.
pub open spec fn starts_part(step: BackendStep) -> bool {
    match step {
        BackendStep::SpawnPipelines => true,
        BackendStep::SpawnLensWatcher => true,
        BackendStep::SpawnManager => true,
        BackendStep::SpawnWorker => true,
        BackendStep::SpawnPlugins => true,
        BackendStep::SpawnApi => true,
        _ => false,
    }
}

/// Tasks that were in flight are queued again, once and before any part that
/// takes or adds tasks is started.
pub proof fn law_tasks_are_requeued_first(limit: Limit)
    ensures
        startup_order(limit)[0] == BackendStep::ResetProcessing,
        forall|i: int|
            0 < i < startup_order(limit).len() ==> #[trigger] startup_order(limit)[i]
                != BackendStep::ResetProcessing,
        !starts_part(startup_order(limit)[0]),
{
}

/// Every part is started if there is a capacity for the channel that feeds the
/// crawlers, and none is if there is not.
pub proof fn law_parts_need_a_capacity(limit: Limit, part: BackendStep)
    requires
        starts_part(part),
    ensures
        startup_order(limit).contains(part) <==> channel_capacity(limit) is Some,
{
    let steps = startup_order(limit);
    if channel_capacity(limit) is Some {
        assert(steps[7] == BackendStep::SpawnPipelines);
        assert(steps[11] == BackendStep::SpawnLensWatcher);
        assert(steps[12] == BackendStep::SpawnManager);
        assert(steps[13] == BackendStep::SpawnWorker);
        assert(steps[15] == BackendStep::SpawnPlugins);
        assert(steps[16] == BackendStep::SpawnApi);
    }
}

/// However the wait for a shutdown ended, the listeners are told exactly once,
/// and only then are the parts waited for.
pub proof fn law_shutdown_is_sent_once(requested: bool)
    ensures
        precedes(shutdown_order(requested), BackendStep::SendShutdown, BackendStep::Join),
        forall|i: int, j: int|
            0 <= i < shutdown_order(requested).len() && 0 <= j < shutdown_order(requested).len()
                && #[trigger] shutdown_order(requested)[i] == BackendStep::SendShutdown
                && #[trigger] shutdown_order(requested)[j] == BackendStep::SendShutdown ==> i == j,
{
    let steps = shutdown_order(requested);
    let sent = if requested { 2int } else { 0int };
    assert(steps[sent] == BackendStep::SendShutdown);
    assert(steps[sent + 1] == BackendStep::Join);
}

/// The place of a step among the steps that start and those that stop the
/// backend: channels are opened before they are shared or handed to a part, and
/// parts are told to stop before they are waited for.
pub open spec fn stage(step: BackendStep) -> int {
    match step {
        BackendStep::ResetProcessing => 0,
        BackendStep::ResetLenses => 1,
        BackendStep::RejectCapacity => 2,
        BackendStep::OpenCrawlQueue(_) => 3,
        BackendStep::OpenShutdown(_) => 4,
        BackendStep::OpenCrawler(_) => 5,
        BackendStep::OpenPlugins(_) => 6,
        BackendStep::OpenPipelines(_) => 7,
        BackendStep::SpawnPipelines => 8,
        BackendStep::ShareCrawler => 9,
        BackendStep::SharePlugins => 10,
        BackendStep::SharePipelines => 11,
        BackendStep::SpawnLensWatcher => 12,
        BackendStep::SpawnManager => 13,
        BackendStep::SpawnWorker => 14,
        BackendStep::SpawnCommits(_) => 15,
        BackendStep::SpawnPlugins => 16,
        BackendStep::SpawnApi => 17,
        BackendStep::AbortLensWatcher => 18,
        BackendStep::AbortPlugins => 19,
        BackendStep::SendShutdown => 20,
        BackendStep::Join => 21,
    }
}

/// Whether every step is of a later stage than those before it.
pub open spec fn in_stages(steps: Seq<BackendStep>) -> bool {
    forall|i: int, j: int|
        0 <= i < j < steps.len() ==> stage(#[trigger] steps[i]) < stage(#[trigger] steps[j])
}

/// Starting goes through its stages once and in order. The channel from the
/// scheduler to the crawlers holds as many tasks as may be in flight, the other
/// channels hold sixteen messages, and the index is committed every ten seconds.
/// With a number of tasks that no channel can hold, starting ends after the
/// resets.
pub proof fn law_startup_goes_in_stages(limit: Limit)
    ensures
        ({
            let steps = startup_order(limit);
            let n = match limit {
                Limit::Infinite(m) => m,
                Limit::Finite(m) => m,
            };
            &&& in_stages(steps)
            &&& steps.contains(BackendStep::ResetProcessing)
            &&& steps.contains(BackendStep::ResetLenses)
            &&& if 0 < n <= usize::MAX / 8 {
                &&& steps.len() == 17
                &&& steps.contains(BackendStep::OpenCrawlQueue(n as usize))
                &&& steps.contains(BackendStep::OpenShutdown(16))
                &&& steps.contains(BackendStep::OpenCrawler(16))
                &&& steps.contains(BackendStep::OpenPlugins(16))
                &&& steps.contains(BackendStep::OpenPipelines(16))
                &&& steps.contains(BackendStep::SpawnPipelines)
                &&& steps.contains(BackendStep::ShareCrawler)
                &&& steps.contains(BackendStep::SharePlugins)
                &&& steps.contains(BackendStep::SharePipelines)
                &&& steps.contains(BackendStep::SpawnLensWatcher)
                &&& steps.contains(BackendStep::SpawnManager)
                &&& steps.contains(BackendStep::SpawnWorker)
                &&& steps.contains(BackendStep::SpawnCommits(10))
                &&& steps.contains(BackendStep::SpawnPlugins)
                &&& steps.contains(BackendStep::SpawnApi)
            } else {
                steps.len() == 3 && steps.contains(BackendStep::RejectCapacity)
            }
        }),
{
    let steps = startup_order(limit);
    assert(steps[0] == BackendStep::ResetProcessing);
    assert(steps[1] == BackendStep::ResetLenses);
    match channel_capacity(limit) {
        Some(capacity) => {
            assert(steps[2] == BackendStep::OpenCrawlQueue(capacity));
            assert(steps[3] == BackendStep::OpenShutdown(16));
            assert(steps[4] == BackendStep::OpenCrawler(16));
            assert(steps[5] == BackendStep::OpenPlugins(16));
            assert(steps[6] == BackendStep::OpenPipelines(16));
            assert(steps[7] == BackendStep::SpawnPipelines);
            assert(steps[8] == BackendStep::ShareCrawler);
            assert(steps[9] == BackendStep::SharePlugins);
            assert(steps[10] == BackendStep::SharePipelines);
            assert(steps[11] == BackendStep::SpawnLensWatcher);
            assert(steps[12] == BackendStep::SpawnManager);
            assert(steps[13] == BackendStep::SpawnWorker);
            assert(steps[14] == BackendStep::SpawnCommits(10));
            assert(steps[15] == BackendStep::SpawnPlugins);
            assert(steps[16] == BackendStep::SpawnApi);
        },
        None => {
            assert(steps[2] == BackendStep::RejectCapacity);
        },
    }
}

/// Stopping goes through its stages once and in order. The lens watcher and the
/// plugin server are stopped at once exactly if the shutdown was requested.
pub proof fn law_shutdown_goes_in_stages(requested: bool)
    ensures
        ({
            let steps = shutdown_order(requested);
            &&& in_stages(steps)
            &&& steps.len() == if requested {
                4int
            } else {
                2int
            }
            &&& steps.contains(BackendStep::SendShutdown)
            &&& steps.contains(BackendStep::Join)
            &&& requested ==> steps.contains(BackendStep::AbortLensWatcher)
            &&& requested ==> steps.contains(BackendStep::AbortPlugins)
        }),
{
    let steps = shutdown_order(requested);
    let sent = if requested {
        2int
    } else {
        0int
    };
    if requested {
        assert(steps[0] == BackendStep::AbortLensWatcher);
        assert(steps[1] == BackendStep::AbortPlugins);
    }
    assert(steps[sent] == BackendStep::SendShutdown);
    assert(steps[sent + 1] == BackendStep::Join);
}

} // verus!
