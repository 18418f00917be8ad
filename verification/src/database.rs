//! Whole runs of the operations on the queue against a database that holds the
//! table of the queue: each call is answered from what was asked, and any call
//! may fail. The laws say what a run leaves in the table and what it returns.
use vstd::prelude::*;

use crate::dequeue::{
    dequeue_next, in_flight, recrawl_next, DequeueActionView, DequeueEventView, RecrawlActionView,
    RecrawlEventView,
};
use crate::lifecycle::{
    failure, mark_done_next, update_task_next, MarkDoneActionView, MarkDoneEventView,
    UpdateTaskActionView, UpdateTaskEventView,
};
use crate::query::{ascii_lower, law_prefix_pattern, TaskQueryView, UrlMatchView, DEQUEUE_SQL};
use crate::settings::{Limit, UserSettings};
use crate::table::{answers, selected, updated, valid, Table};
use crate::task::{ActiveModelView, CrawlStatus, CrawlType, ModelView, TagPair};

verus! {

/// How a database replies to what it is asked.
pub struct Database<E> {
    /// How many tasks a query selects.
    pub count: spec_fn(TaskQueryView) -> Result<nat, E>,
    /// A task that a query selects.
    pub find: spec_fn(TaskQueryView) -> Result<Option<ModelView>, E>,
    /// The first task that a statement selects, with the values of its
    /// placeholders.
    pub select: spec_fn(Seq<char>, Seq<u32>) -> Result<Option<ModelView>, E>,
    /// Why columns cannot be written; nothing, if they can.
    pub write: spec_fn(ActiveModelView) -> Option<E>,
    /// Why a task cannot be removed; nothing, if it can.
    pub delete: spec_fn(int) -> Option<E>,
}

/// Whether a task waits to be crawled while fewer than `documents` documents of
/// its domain are indexed and fewer than `tasks` tasks of it are in progress.
pub open spec fn eligible(
    table: Table,
    indexed: spec_fn(Seq<char>) -> nat,
    documents: u32,
    tasks: u32,
    id: int,
) -> bool {
    &&& table.contains_key(id)
    &&& table[id].status == CrawlStatus::Queued
    &&& indexed(table[id].domain) < documents
    &&& in_flight(table, table[id].domain).len() < tasks
}

/// Whether `reply` is a faithful answer to the statement that selects the next
/// task, run with these two values: of the eligible tasks, one that was updated
/// least recently.
pub open spec fn answers_statement(
    table: Table,
    indexed: spec_fn(Seq<char>) -> nat,
    documents: u32,
    tasks: u32,
    reply: Option<ModelView>,
) -> bool {
    match reply {
        Some(row) => {
            &&& eligible(table, indexed, documents, tasks, row.id)
            &&& table[row.id] == row
            &&& forall|id: int| #[trigger]
                eligible(table, indexed, documents, tasks, id) ==> row.updated_at
                    <= table[id].updated_at
        },
        None => forall|id: int| !eligible(table, indexed, documents, tasks, id),
    }
}

/// Whether every call that does not fail is answered from the table, and from
/// what was asked. `indexed` tells how many documents of a domain are indexed.
pub open spec fn truthful<E>(
    db: Database<E>,
    table: Table,
    indexed: spec_fn(Seq<char>) -> nat,
) -> bool {
    &&& forall|query: TaskQueryView|
        (#[trigger] (db.count)(query)) matches Ok(n) ==> n == selected(table, query).len()
    &&& forall|query: TaskQueryView|
        (#[trigger] (db.find)(query)) matches Ok(reply) ==> answers(table, query, reply)
    &&& forall|values: Seq<u32>|
        values.len() == 2 ==> ((#[trigger] (db.select)(DEQUEUE_SQL@, values)) matches Ok(reply)
            ==> answers_statement(table, indexed, values[0], values[1], reply))
}

/// What a write of columns at the instant `now` comes to.
pub enum WriteEnd {
    /// The database has refused it.
    Refused,
    /// There is no such row.
    Missed,
    /// This is the table afterwards.
    Written(Table),
}

/// What a write of columns at the instant `now` comes to.
pub open spec fn write_to<E>(
    db: Database<E>,
    table: Table,
    update: ActiveModelView,
    now: int,
) -> WriteEnd {
    if (db.write)(update) is Some {
        WriteEnd::Refused
    } else if update.id matches Some(id) && table.contains_key(id) {
        WriteEnd::Written(updated(table, update, now))
    } else {
        WriteEnd::Missed
    }
}

/// How far a run that takes a task has come.
pub struct TakingRun<E> {
    /// The table as it is now.
    pub table: Table,
    /// Whether a write was refused.
    pub refused: bool,
    /// Why a call other than a write failed.
    pub failed: Option<E>,
    /// What the run has returned, once it has ended.
    pub result: Option<Result<Option<ModelView>, E>>,
}

/// Runs `dequeue` from an event on.
pub open spec fn run_taking<E>(
    settings: UserSettings,
    db: Database<E>,
    now: int,
    event: DequeueEventView<E>,
    run: TakingRun<E>,
    steps: nat,
) -> TakingRun<E>
    decreases steps,
{
    if steps == 0 {
        run
    } else {
        let left = (steps - 1) as nat;
        match dequeue_next(settings, event) {
            DequeueActionView::Count(query) => match (db.count)(query) {
                Ok(n) => run_taking(
                    settings,
                    db,
                    now,
                    DequeueEventView::InProgress(n),
                    run,
                    left,
                ),
                Err(e) => run_taking(
                    settings,
                    db,
                    now,
                    DequeueEventView::Failed(e),
                    TakingRun { failed: Some(e), ..run },
                    left,
                ),
            },
            DequeueActionView::Find(query) => match (db.find)(query) {
                Ok(task) => run_taking(
                    settings,
                    db,
                    now,
                    DequeueEventView::Bootstrap(task),
                    run,
                    left,
                ),
                Err(e) => run_taking(
                    settings,
                    db,
                    now,
                    DequeueEventView::Failed(e),
                    TakingRun { failed: Some(e), ..run },
                    left,
                ),
            },
            DequeueActionView::Select(sql, values) => match (db.select)(sql, values) {
                Ok(task) => run_taking(
                    settings,
                    db,
                    now,
                    DequeueEventView::Selected(task),
                    run,
                    left,
                ),
                Err(e) => run_taking(
                    settings,
                    db,
                    now,
                    DequeueEventView::Failed(e),
                    TakingRun { failed: Some(e), ..run },
                    left,
                ),
            },
            DequeueActionView::Update(update) => match write_to(db, run.table, update, now) {
                WriteEnd::Written(after) => run_taking(
                    settings,
                    db,
                    now,
                    DequeueEventView::Updated(after[update.id->0]),
                    TakingRun { table: after, ..run },
                    left,
                ),
                WriteEnd::Refused => run_taking(
                    settings,
                    db,
                    now,
                    DequeueEventView::UpdateFailed,
                    TakingRun { refused: true, ..run },
                    left,
                ),
                WriteEnd::Missed => run_taking(
                    settings,
                    db,
                    now,
                    DequeueEventView::UpdateFailed,
                    run,
                    left,
                ),
            },
            DequeueActionView::Return(task) => TakingRun { result: Some(Ok(task)), ..run },
            DequeueActionView::Fail(e) => TakingRun { result: Some(Err(e)), ..run },
        }
    }
}

/// A run of `dequeue` on a table, from its start on.
pub open spec fn taking_run<E>(
    settings: UserSettings,
    db: Database<E>,
    table: Table,
    now: int,
) -> TakingRun<E> {
    run_taking(
        settings,
        db,
        now,
        DequeueEventView::Start,
        TakingRun { table, refused: false, failed: None, result: None },
        6,
    )
}

/// Runs `dequeue_recrawl` from an event on.
pub open spec fn run_retaking<E>(
    settings: UserSettings,
    db: Database<E>,
    now: int,
    event: RecrawlEventView<E>,
    run: TakingRun<E>,
    steps: nat,
) -> TakingRun<E>
    decreases steps,
{
    if steps == 0 {
        run
    } else {
        let left = (steps - 1) as nat;
        match recrawl_next(settings, event) {
            RecrawlActionView::Count(query) => match (db.count)(query) {
                Ok(n) => run_retaking(
                    settings,
                    db,
                    now,
                    RecrawlEventView::InProgress(n),
                    run,
                    left,
                ),
                Err(e) => run_retaking(
                    settings,
                    db,
                    now,
                    RecrawlEventView::Failed(e),
                    TakingRun { failed: Some(e), ..run },
                    left,
                ),
            },
            RecrawlActionView::Find(query) => match (db.find)(query) {
                Ok(task) => run_retaking(
                    settings,
                    db,
                    now,
                    RecrawlEventView::Found(task, now),
                    run,
                    left,
                ),
                Err(e) => run_retaking(
                    settings,
                    db,
                    now,
                    RecrawlEventView::Failed(e),
                    TakingRun { failed: Some(e), ..run },
                    left,
                ),
            },
            RecrawlActionView::Update(update) => match write_to(db, run.table, update, now) {
                WriteEnd::Written(after) => run_retaking(
                    settings,
                    db,
                    now,
                    RecrawlEventView::Updated(after[update.id->0]),
                    TakingRun { table: after, ..run },
                    left,
                ),
                WriteEnd::Refused => run_retaking(
                    settings,
                    db,
                    now,
                    RecrawlEventView::UpdateFailed,
                    TakingRun { refused: true, ..run },
                    left,
                ),
                WriteEnd::Missed => run_retaking(
                    settings,
                    db,
                    now,
                    RecrawlEventView::UpdateFailed,
                    run,
                    left,
                ),
            },
            RecrawlActionView::Return(task) => TakingRun { result: Some(Ok(task)), ..run },
            RecrawlActionView::Fail(e) => TakingRun { result: Some(Err(e)), ..run },
        }
    }
}

/// A run of `dequeue_recrawl` on a table, from its start on.
pub open spec fn retaking_run<E>(
    settings: UserSettings,
    db: Database<E>,
    table: Table,
    now: int,
) -> TakingRun<E> {
    run_retaking(
        settings,
        db,
        now,
        RecrawlEventView::Start,
        TakingRun { table, refused: false, failed: None, result: None },
        5,
    )
}

/// The ids of the tasks that are in progress.
pub open spec fn busy(table: Table) -> Set<int> {
    table.dom().filter(|id: int| table[id].status == CrawlStatus::Processing)
}

/// Whether as many tasks are in progress as the settings allow.
pub open spec fn is_full(settings: UserSettings, table: Table) -> bool {
    settings.inflight_crawl_limit matches Limit::Finite(n) && busy(table).len() >= n
}

/// Whether a task bootstraps a lens and waits to be crawled.
pub open spec fn bootstraps(table: Table, id: int) -> bool {
    &&& table.contains_key(id)
    &&& table[id].status == CrawlStatus::Queued
    &&& table[id].crawl_type == CrawlType::Bootstrap
}

/// The number that stands for a limit.
pub open spec fn number(limit: Limit) -> u32 {
    match limit {
        Limit::Infinite(n) => n,
        Limit::Finite(n) => n,
    }
}

/// Whether a task is eligible under the limits of the settings.
pub open spec fn is_next(
    settings: UserSettings,
    table: Table,
    indexed: spec_fn(Seq<char>) -> nat,
    id: int,
) -> bool {
    eligible(
        table,
        indexed,
        number(settings.domain_crawl_limit),
        number(settings.inflight_domain_limit),
        id,
    )
}

/// Whether a run has changed nothing and returned no task.
pub open spec fn took_nothing<E>(run: TakingRun<E>, table: Table) -> bool {
    run.table == table && run.result == Some(Ok::<Option<ModelView>, E>(None))
}

/// Whether a run has taken the task `id`: it is in progress and dated, nothing
/// else has changed, and it is what was returned. If the task could not be
/// written, nothing has changed and nothing was returned.
pub open spec fn took<E>(run: TakingRun<E>, table: Table, id: int, now: int) -> bool {
    if run.refused {
        took_nothing(run, table)
    } else {
        let row = ModelView { status: CrawlStatus::Processing, updated_at: now, ..table[id] };
        &&& run.table == table.insert(id, row)
        &&& run.result == Some(Ok::<Option<ModelView>, E>(Some(row)))
    }
}

/// Whether a run that takes a task has ended with the failure of a call: the same
/// one is reported, and nothing has changed.
pub open spec fn gave_up<E>(run: TakingRun<E>, table: Table) -> bool {
    run.failed matches Some(e) && run.result == Some(Err::<Option<ModelView>, E>(e)) && run.table
        == table
}

/// With a truthful database, `dequeue` takes nothing while as many tasks are in
/// progress as allowed. Else it takes a bootstrapping task if there is one, else,
/// of the tasks that the limits of their domains leave, one that was updated
/// least recently, and nothing if there is none. The task is marked as in
/// progress and dated, and nothing else changes.
pub proof fn law_dequeue_on_a_table<E>(
    settings: UserSettings,
    db: Database<E>,
    table: Table,
    indexed: spec_fn(Seq<char>) -> nat,
    now: int,
)
    requires
        valid(table),
        truthful(db, table, indexed),
    ensures
        ({
            let run = taking_run(settings, db, table, now);
            if run.failed is Some {
                gave_up(run, table)
            } else if is_full(settings, table) {
                took_nothing(run, table)
            } else if exists|id: int| bootstraps(table, id) {
                exists|id: int| #[trigger] bootstraps(table, id) && took(run, table, id, now)
            } else if exists|id: int| is_next(settings, table, indexed, id) {
                exists|id: int| #[trigger]
                    is_next(settings, table, indexed, id) && took(run, table, id, now) && forall|
                        other: int,
                    | #[trigger]
                        is_next(settings, table, indexed, other) ==> table[id].updated_at
                            <= table[other].updated_at
            } else {
                took_nothing(run, table)
            }
        }),
{
    reveal_with_fuel(run_taking, 7);
    let run = taking_run(settings, db, table, now);
    let processing = TaskQueryView::with_status(CrawlStatus::Processing);
    assert(selected(table, processing) =~= busy(table));
    let bootstrap = crate::dequeue::bootstrap_tasks();
    assert forall|id: int| #[trigger] bootstraps(table, id) <==> selected(
        table,
        bootstrap,
    ).contains(id) by {}
    let values = seq![
        settings.domain_crawl_limit.value(),
        settings.inflight_domain_limit.value(),
    ];
    assert(values.len() == 2);
    assert(values[0] == number(settings.domain_crawl_limit));
    assert(values[1] == number(settings.inflight_domain_limit));
    if run.failed is None && !is_full(settings, table) {
        match (db.find)(bootstrap) {
            Ok(Some(row)) => {
                assert(bootstraps(table, row.id));
                assert(took(run, table, row.id, now));
            },
            Ok(None) => {
                assert forall|id: int| !bootstraps(table, id) by {
                    assert(!selected(table, bootstrap).contains(id));
                }
                match (db.select)(DEQUEUE_SQL@, values) {
                    Ok(Some(row)) => {
                        assert(is_next(settings, table, indexed, row.id));
                        assert(took(run, table, row.id, now));
                        assert forall|other: int| #[trigger]
                            is_next(settings, table, indexed, other) implies table[row.id].updated_at
                            <= table[other].updated_at by {
                            assert(eligible(table, indexed, values[0], values[1], other));
                        }
                    },
                    Ok(None) => {
                        assert forall|id: int| !is_next(settings, table, indexed, id) by {
                            assert(!eligible(table, indexed, values[0], values[1], id));
                        }
                    },
                    Err(_) => {},
                }
            },
            Err(_) => {},
        }
    }
}

/// Whether a text begins with `file://`, in either case.
pub open spec fn is_file_url(url: Seq<char>) -> bool {
    &&& url.len() >= 7
    &&& forall|i: int|
        0 <= i < 7 ==> ascii_lower(#[trigger] url[i]) == seq![
            'f',
            'i',
            'l',
            'e',
            ':',
            '/',
            '/',
        ][i]
}

/// Whether a task is for a local file that was crawled.
pub open spec fn is_crawled_file(table: Table, id: int) -> bool {
    &&& table.contains_key(id)
    &&& table[id].status == CrawlStatus::Completed
    &&& is_file_url(table[id].url)
}

/// Whether a task is for a local file that was crawled and has not been updated
/// for a day.
pub open spec fn is_due(table: Table, id: int, now: int) -> bool {
    is_crawled_file(table, id) && now - table[id].updated_at >= 86_400_000_000_000
}

proof fn lemma_file_query(table: Table, id: int)
    ensures
        selected(table, crate::dequeue::recrawl_tasks()).contains(id) <==> is_crawled_file(
            table,
            id,
        ),
{
    reveal_strlit("file://");
    let prefix = "file://"@;
    let url = table[id].url;
    let letters = seq!['f', 'i', 'l', 'e', ':', '/', '/'];
    assert(prefix =~= letters);
    law_prefix_pattern(prefix, url);
    assert forall|i: int| 0 <= i < 7 implies ascii_lower(#[trigger] prefix[i]) == letters[i] by {}
    if url.len() >= 7 && forall|i: int|
        0 <= i < prefix.len() ==> ascii_lower(#[trigger] prefix[i]) == ascii_lower(url[i]) {
        assert forall|i: int| 0 <= i < 7 implies ascii_lower(#[trigger] url[i]) == letters[i] by {
            assert(ascii_lower(prefix[i]) == ascii_lower(url[i]));
        }
    }
    if is_file_url(url) {
        assert forall|i: int| 0 <= i < prefix.len() implies ascii_lower(#[trigger] prefix[i])
            == ascii_lower(url[i]) by {
            assert(ascii_lower(url[i]) == letters[i]);
        }
    }
}

/// With a truthful database, `dequeue_recrawl` takes nothing while as many tasks
/// are in progress as allowed. Else it takes a local file that was crawled and has
/// not been updated for a day, if there is one, and no other was updated less
/// recently. The task is marked as in progress and dated, and nothing else
/// changes.
pub proof fn law_recrawl_on_a_table<E>(
    settings: UserSettings,
    db: Database<E>,
    table: Table,
    indexed: spec_fn(Seq<char>) -> nat,
    now: int,
)
    requires
        valid(table),
        truthful(db, table, indexed),
    ensures
        ({
            let run = retaking_run(settings, db, table, now);
            if run.failed is Some {
                gave_up(run, table)
            } else if is_full(settings, table) {
                took_nothing(run, table)
            } else if exists|id: int| is_due(table, id, now) {
                exists|id: int| #[trigger]
                    is_due(table, id, now) && took(run, table, id, now) && forall|other: int|
                        #[trigger]
                        is_crawled_file(table, other) ==> table[id].updated_at
                            <= table[other].updated_at
            } else {
                took_nothing(run, table)
            }
        }),
{
    reveal_with_fuel(run_retaking, 6);
    let run = retaking_run(settings, db, table, now);
    let processing = TaskQueryView::with_status(CrawlStatus::Processing);
    assert(selected(table, processing) =~= busy(table));
    let files = crate::dequeue::recrawl_tasks();
    assert forall|id: int| #[trigger] is_crawled_file(table, id) <==> selected(
        table,
        files,
    ).contains(id) by {
        lemma_file_query(table, id);
    }
    if run.failed is None && !is_full(settings, table) {
        match (db.find)(files) {
            Ok(Some(row)) => {
                assert(is_crawled_file(table, row.id));
                assert forall|other: int| #[trigger]
                    is_crawled_file(table, other) implies table[row.id].updated_at
                    <= table[other].updated_at by {
                    assert(selected(table, files).contains(other));
                }
                if now - row.updated_at >= 86_400_000_000_000 {
                    assert(is_due(table, row.id, now));
                    assert(took(run, table, row.id, now));
                } else {
                    assert forall|id: int| !is_due(table, id, now) by {
                        if is_due(table, id, now) {
                            assert(is_crawled_file(table, id));
                        }
                    }
                }
            },
            Ok(None) => {
                assert forall|id: int| !is_due(table, id, now) by {
                    assert(!selected(table, files).contains(id));
                }
            },
            Err(_) => {},
        }
    }
}

/// How far marking a task as done has come.
pub struct DoneRun {
    /// The table as it is now.
    pub table: Table,
    /// Which task was connected to which tags.
    pub tagged: Seq<(Option<int>, Seq<TagPair>)>,
    /// Whether a search or a write failed.
    pub failed: bool,
    /// What the run has returned, once it has ended.
    pub result: Option<Option<ModelView>>,
}

/// Runs `mark_done` from an event on.
pub open spec fn run_done<E>(
    id: int,
    tags: Option<Vec<TagPair>>,
    db: Database<E>,
    now: int,
    event: MarkDoneEventView,
    run: DoneRun,
    steps: nat,
) -> DoneRun
    decreases steps,
{
    if steps == 0 {
        run
    } else {
        let left = (steps - 1) as nat;
        match mark_done_next(id, tags, event) {
            MarkDoneActionView::Find(query) => match (db.find)(query) {
                Ok(task) => run_done(
                    id,
                    tags,
                    db,
                    now,
                    MarkDoneEventView::Found(task),
                    run,
                    left,
                ),
                Err(_) => run_done(
                    id,
                    tags,
                    db,
                    now,
                    MarkDoneEventView::Found(None),
                    DoneRun { failed: true, ..run },
                    left,
                ),
            },
            MarkDoneActionView::Tag(row, list) => run_done(
                id,
                tags,
                db,
                now,
                MarkDoneEventView::Tagged(row),
                DoneRun { tagged: run.tagged.push((row.id, list)), ..run },
                left,
            ),
            MarkDoneActionView::Update(update) => match write_to(db, run.table, update, now) {
                WriteEnd::Written(after) => run_done(
                    id,
                    tags,
                    db,
                    now,
                    MarkDoneEventView::Updated(Some(after[update.id->0])),
                    DoneRun { table: after, ..run },
                    left,
                ),
                WriteEnd::Refused => run_done(
                    id,
                    tags,
                    db,
                    now,
                    MarkDoneEventView::Updated(None),
                    DoneRun { failed: true, ..run },
                    left,
                ),
                WriteEnd::Missed => run_done(
                    id,
                    tags,
                    db,
                    now,
                    MarkDoneEventView::Updated(None),
                    run,
                    left,
                ),
            },
            MarkDoneActionView::Return(task) => DoneRun { result: Some(task), ..run },
        }
    }
}

/// A run of `mark_done` on a table, from its start on.
pub open spec fn done_run<E>(
    id: int,
    tags: Option<Vec<TagPair>>,
    db: Database<E>,
    table: Table,
    now: int,
) -> DoneRun {
    run_done(
        id,
        tags,
        db,
        now,
        MarkDoneEventView::Start,
        DoneRun { table, tagged: Seq::empty(), failed: false, result: None },
        5,
    )
}

proof fn lemma_id_query(table: Table, id: int, reply: Option<ModelView>)
    requires
        valid(table),
        answers(table, TaskQueryView::with_id(id), reply),
    ensures
        reply == (if table.contains_key(id) {
            Some(table[id])
        } else {
            None
        }),
{
    let query = TaskQueryView::with_id(id);
    assert(selected(table, query).contains(id) <==> table.contains_key(id));
    match reply {
        Some(row) => {
            assert(selected(table, query).contains(row.id));
            assert(table[row.id].id == id);
        },
        None => {},
    }
}

/// With a truthful database, `mark_done` completes and dates the task that it is
/// asked about, changes nothing else and returns the task; if there is no such
/// task or the database fails, it changes nothing and returns nothing. Tags, if
/// there are any, are connected once, to that task and to no other.
pub proof fn law_done_on_a_table<E>(
    id: int,
    tags: Option<Vec<TagPair>>,
    db: Database<E>,
    table: Table,
    indexed: spec_fn(Seq<char>) -> nat,
    now: int,
)
    requires
        valid(table),
        truthful(db, table, indexed),
    ensures
        ({
            let run = done_run(id, tags, db, table, now);
            let row = ModelView { status: CrawlStatus::Completed, updated_at: now, ..table[id] };
            &&& if run.failed || !table.contains_key(id) {
                run.table == table && run.result == Some(None::<ModelView>)
            } else {
                run.table == table.insert(id, row) && run.result == Some(Some(row))
            }
            &&& if (db.find)(TaskQueryView::with_id(id)) is Ok && table.contains_key(id) {
                match tags {
                    Some(list) => run.tagged == seq![(Some(id), list@)],
                    None => run.tagged.len() == 0,
                }
            } else {
                run.tagged.len() == 0
            }
        }),
{
    reveal_with_fuel(run_done, 6);
    match (db.find)(TaskQueryView::with_id(id)) {
        Ok(reply) => {
            lemma_id_query(table, id, reply);
            match tags {
                Some(list) => {
                    assert(Seq::<(Option<int>, Seq<TagPair>)>::empty().push((Some(id), list@))
                        =~= seq![(Some(id), list@)]);
                },
                None => {},
            }
        },
        Err(_) => {},
    }
}

/// A task that fails is queued once more, dated, and its retries are counted, if
/// it may be tried again and was not tried more than five times; else it is
/// marked as failed and dated. Nothing else changes, of it or of other tasks.
pub proof fn law_failure_on_a_table(table: Table, id: int, retry: bool, now: int)
    requires
        valid(table),
        table.contains_key(id),
    ensures
        updated(table, failure(table[id], retry), now) == table.insert(
            id,
            if retry && table[id].num_retries <= 5 {
                ModelView {
                    status: CrawlStatus::Queued,
                    num_retries: table[id].num_retries + 1,
                    updated_at: now,
                    ..table[id]
                }
            } else {
                ModelView { status: CrawlStatus::Failed, updated_at: now, ..table[id] }
            },
        ),
{
}

/// What giving a task its URL returns.
pub enum RenamingResult<E> {
    Task(ModelView),
    NotFound,
    Failed(E),
}

/// How far giving a task its URL has come.
pub struct RenamingRun<E> {
    /// The table as it is now.
    pub table: Table,
    /// Why a call failed.
    pub failed: Option<E>,
    /// What the run has returned, once it has ended.
    pub result: Option<RenamingResult<E>>,
}

/// Runs `update_or_remove_task` from an event on.
pub open spec fn run_renaming<E>(
    id: int,
    url: Seq<char>,
    db: Database<E>,
    now: int,
    event: UpdateTaskEventView<E>,
    run: RenamingRun<E>,
    steps: nat,
) -> RenamingRun<E>
    decreases steps,
{
    if steps == 0 {
        run
    } else {
        let left = (steps - 1) as nat;
        match update_task_next(id, url, event) {
            UpdateTaskActionView::FindByUrl(query) => match (db.find)(query) {
                Ok(task) => run_renaming(
                    id,
                    url,
                    db,
                    now,
                    UpdateTaskEventView::ByUrl(task),
                    run,
                    left,
                ),
                Err(e) => run_renaming(
                    id,
                    url,
                    db,
                    now,
                    UpdateTaskEventView::Failed(e),
                    RenamingRun { failed: Some(e), ..run },
                    left,
                ),
            },
            UpdateTaskActionView::FindById(query) => match (db.find)(query) {
                Ok(task) => run_renaming(
                    id,
                    url,
                    db,
                    now,
                    UpdateTaskEventView::ById(task),
                    run,
                    left,
                ),
                Err(e) => run_renaming(
                    id,
                    url,
                    db,
                    now,
                    UpdateTaskEventView::Failed(e),
                    RenamingRun { failed: Some(e), ..run },
                    left,
                ),
            },
            UpdateTaskActionView::Delete(gone, task) => match (db.delete)(gone) {
                None => run_renaming(
                    id,
                    url,
                    db,
                    now,
                    UpdateTaskEventView::Written(task),
                    RenamingRun { table: run.table.remove(gone), ..run },
                    left,
                ),
                Some(e) => run_renaming(
                    id,
                    url,
                    db,
                    now,
                    UpdateTaskEventView::Failed(e),
                    RenamingRun { failed: Some(e), ..run },
                    left,
                ),
            },
            UpdateTaskActionView::Save(update, task) => match (db.write)(update) {
                None => run_renaming(
                    id,
                    url,
                    db,
                    now,
                    UpdateTaskEventView::Written(task),
                    RenamingRun { table: updated(run.table, update, now), ..run },
                    left,
                ),
                Some(e) => run_renaming(
                    id,
                    url,
                    db,
                    now,
                    UpdateTaskEventView::Failed(e),
                    RenamingRun { failed: Some(e), ..run },
                    left,
                ),
            },
            UpdateTaskActionView::Return(task) => RenamingRun {
                result: Some(RenamingResult::Task(task)),
                ..run
            },
            UpdateTaskActionView::NotFound => RenamingRun {
                result: Some(RenamingResult::NotFound),
                ..run
            },
            UpdateTaskActionView::Fail(e) => RenamingRun {
                result: Some(RenamingResult::Failed(e)),
                ..run
            },
        }
    }
}

/// A run of `update_or_remove_task` on a table, from its start on.
pub open spec fn renaming_run<E>(
    id: int,
    url: Seq<char>,
    db: Database<E>,
    table: Table,
    now: int,
) -> RenamingRun<E> {
    run_renaming(
        id,
        url,
        db,
        now,
        UpdateTaskEventView::Start,
        RenamingRun { table, failed: None, result: None },
        5,
    )
}

/// Whether the task `id` has the URL.
pub open spec fn has_url(table: Table, id: int, url: Seq<char>) -> bool {
    table.contains_key(id) && table[id].url == url
}

/// With a truthful database, giving the task `id` a URL removes the task if
/// another one has the URL, which is returned as it is; changes nothing if the
/// task has the URL itself; else sets the URL of the task and its date, and
/// nothing else of it. If there is no such task, that is reported, as is any
/// failure, and nothing has changed.
pub proof fn law_renaming_on_a_table<E>(
    id: int,
    url: Seq<char>,
    db: Database<E>,
    table: Table,
    indexed: spec_fn(Seq<char>) -> nat,
    now: int,
)
    requires
        valid(table),
        truthful(db, table, indexed),
    ensures
        ({
            let run = renaming_run(id, url, db, table, now);
            if run.failed is Some {
                run.table == table && run.result == Some(RenamingResult::Failed(run.failed->0))
            } else if exists|other: int| has_url(table, other, url) {
                exists|other: int| #[trigger]
                    has_url(table, other, url) && run.result == Some(
                        RenamingResult::<E>::Task(table[other]),
                    ) && run.table == if other == id {
                        table
                    } else {
                        table.remove(id)
                    }
            } else if table.contains_key(id) {
                &&& run.table == table.insert(
                    id,
                    ModelView { url, updated_at: now, ..table[id] },
                )
                &&& run.result == Some(
                    RenamingResult::<E>::Task(ModelView { url, ..table[id] }),
                )
            } else {
                run.table == table && run.result == Some(RenamingResult::<E>::NotFound)
            }
        }),
{
    reveal_with_fuel(run_renaming, 6);
    let by_url = TaskQueryView::with_url(UrlMatchView::Is(url));
    assert forall|other: int| #[trigger] has_url(table, other, url) <==> selected(
        table,
        by_url,
    ).contains(other) by {}
    match (db.find)(by_url) {
        Ok(Some(existing)) => {
            assert(has_url(table, existing.id, url));
        },
        Ok(None) => {
            assert forall|other: int| !has_url(table, other, url) by {
                assert(!selected(table, by_url).contains(other));
            }
            match (db.find)(TaskQueryView::with_id(id)) {
                Ok(reply) => {
                    lemma_id_query(table, id, reply);
                    if table.contains_key(id) {
                        assert(!has_url(table, id, url));
                    }
                },
                Err(_) => {},
            }
        },
        Err(_) => {},
    }
}

} // verus!
