//! Taking the next task out of the queue. The caller performs each action on
//! the database and hands its outcome back as the next event, until the action
//! is to return or to fail.
use vstd::prelude::*;

use crate::query::{
    ascii_lower, gen_dequeue_sql, law_prefix_pattern, num_tasks_in_progress, SqlStatement,
    TaskQuery, TaskQueryView, UrlMatch, UrlMatchView, DEQUEUE_SQL,
};
use crate::settings::{Limit, UserSettings};
use crate::table::{answers, lemma_update_keeps_valid, selected, updated, valid, Table};
use crate::task::{
    opt_task, ActiveModel, ActiveModelView, CrawlStatus, CrawlType, Model, ModelView,
};
use crate::time::{whole_days, Timestamp};

verus! {

/// What to do next in order to take a task.
#[derive(Debug)]
pub enum DequeueAction<E> {
    /// Count the tasks that the query selects.
    Count(TaskQuery),
    /// Find one task that the query selects.
    Find(TaskQuery),
    /// Run the statement, and take the first task that it selects.
    Select(SqlStatement),
    /// Write these columns.
    Update(ActiveModel),
    /// Return the task, or that there is none to be crawled now.
    Return(Option<Model>),
    /// Report the failure.
    Fail(E),
}

/// The contents of a `DequeueAction`.
pub enum DequeueActionView<E> {
    Count(TaskQueryView),
    Find(TaskQueryView),
    Select(Seq<char>, Seq<u32>),
    Update(ActiveModelView),
    Return(Option<ModelView>),
    Fail(E),
}

impl<E> View for DequeueAction<E> {
    type V = DequeueActionView<E>;

    open spec fn view(&self) -> DequeueActionView<E> {
        match self {
            DequeueAction::Count(query) => DequeueActionView::Count(query@),
            DequeueAction::Find(query) => DequeueActionView::Find(query@),
            DequeueAction::Select(statement) => DequeueActionView::Select(
                statement.sql@,
                statement.values@,
            ),
            DequeueAction::Update(update) => DequeueActionView::Update(update@),
            DequeueAction::Return(task) => DequeueActionView::Return(opt_task(*task)),
            DequeueAction::Fail(e) => DequeueActionView::Fail(*e),
        }
    }
}

/// How far `dequeue` has come, and the outcome of its last action.
#[derive(Debug)]
pub enum DequeueEvent<E> {
    Start,
    /// So many tasks are in progress.
    InProgress(u64),
    /// The search for a bootstrapping task has ended.
    Bootstrap(Option<Model>),
    /// The statement that selects the next task has run.
    Selected(Option<Model>),
    /// The task was written.
    Updated(Model),
    /// The task could not be written.
    UpdateFailed,
    /// Counting, searching or selecting failed.
    Failed(E),
}

/// The contents of a `DequeueEvent`.
pub enum DequeueEventView<E> {
    Start,
    InProgress(nat),
    Bootstrap(Option<ModelView>),
    Selected(Option<ModelView>),
    Updated(ModelView),
    UpdateFailed,
    Failed(E),
}

impl<E> View for DequeueEvent<E> {
    type V = DequeueEventView<E>;

    open spec fn view(&self) -> DequeueEventView<E> {
        match self {
            DequeueEvent::Start => DequeueEventView::Start,
            DequeueEvent::InProgress(n) => DequeueEventView::InProgress(*n as nat),
            DequeueEvent::Bootstrap(task) => DequeueEventView::Bootstrap(opt_task(*task)),
            DequeueEvent::Selected(task) => DequeueEventView::Selected(opt_task(*task)),
            DequeueEvent::Updated(task) => DequeueEventView::Updated(task@),
            DequeueEvent::UpdateFailed => DequeueEventView::UpdateFailed,
            DequeueEvent::Failed(e) => DequeueEventView::Failed(*e),
        }
    }
}

/// The tasks that bootstrap a lens and wait to be crawled.
pub open spec fn bootstrap_tasks() -> TaskQueryView {
    TaskQueryView {
        crawl_type: Some(CrawlType::Bootstrap),
        ..TaskQueryView::with_status(CrawlStatus::Queued)
    }
}

/// What is written in order to take a task: it is marked as in progress.
pub open spec fn in_progress(task: ModelView) -> ActiveModelView {
    ActiveModelView::only_status(task.id, CrawlStatus::Processing)
}

/// What `dequeue` does next: nothing while too many tasks are in progress;
/// bootstrapping tasks come first, then what the limits of the domains leave;
/// the task that was found is marked before it is returned.
pub open spec fn dequeue_next<E>(
    settings: UserSettings,
    event: DequeueEventView<E>,
) -> DequeueActionView<E> {
    match event {
        DequeueEventView::Start => match settings.inflight_crawl_limit {
            Limit::Finite(_) => DequeueActionView::Count(
                TaskQueryView::with_status(CrawlStatus::Processing),
            ),
            Limit::Infinite(_) => DequeueActionView::Find(bootstrap_tasks()),
        },
        DequeueEventView::InProgress(n) => if settings.inflight_crawl_limit.reached(n) {
            DequeueActionView::Return(None)
        } else {
            DequeueActionView::Find(bootstrap_tasks())
        },
        DequeueEventView::Bootstrap(Some(task)) => DequeueActionView::Update(in_progress(task)),
        DequeueEventView::Bootstrap(None) => DequeueActionView::Select(
            DEQUEUE_SQL@,
            seq![settings.domain_crawl_limit.value(), settings.inflight_domain_limit.value()],
        ),
        DequeueEventView::Selected(Some(task)) => DequeueActionView::Update(in_progress(task)),
        DequeueEventView::Selected(None) => DequeueActionView::Return(None),
        DequeueEventView::Updated(task) => DequeueActionView::Return(Some(task)),
        DequeueEventView::UpdateFailed => DequeueActionView::Return(None),
        DequeueEventView::Failed(e) => DequeueActionView::Fail(e),
    }
}

/// Whether the columns mark the task as in progress, and nothing else.
pub open spec fn takes(update: ActiveModel, task: Model) -> bool {
    &&& update.id == Some(task.id)
    &&& update.status == Some(CrawlStatus::Processing)
    &&& update.domain is None && update.url is None && update.num_retries is None
    &&& update.crawl_type is None && update.pipeline is None
    &&& update.created_at is None && update.updated_at is None
}

/// What is written in order to take a task.
fn take(task: &Model) -> (update: ActiveModel)
    ensures
        update@ == in_progress(task@),
        takes(update, *task),
{
    let mut update = ActiveModel::of(task);
    update.status = Some(CrawlStatus::Processing);
    update
}

fn bootstrap_query() -> (query: TaskQuery)
    ensures
        query@ == bootstrap_tasks(),
        query.id is None && query.status == Some(CrawlStatus::Queued),
        query.crawl_type == Some(CrawlType::Bootstrap) && query.url is Any,
{
    let mut query = TaskQuery::with_status(CrawlStatus::Queued);
    query.crawl_type = Some(CrawlType::Bootstrap);
    query
}

/// Get the next url in the crawl queue, step by step.
pub fn dequeue<E>(user_settings: &UserSettings, event: DequeueEvent<E>) -> (action:
    DequeueAction<E>)
    ensures
        action@ == dequeue_next(*user_settings, event@),
        action matches DequeueAction::Count(query) ==> {
            &&& query.id is None && query.status == Some(CrawlStatus::Processing)
            &&& query.crawl_type is None && query.url is Any
        },
        action matches DequeueAction::Find(query) ==> {
            &&& query.id is None && query.status == Some(CrawlStatus::Queued)
            &&& query.crawl_type == Some(CrawlType::Bootstrap) && query.url is Any
        },
        action matches DequeueAction::Select(statement) ==> {
            &&& statement.sql@ == DEQUEUE_SQL@
            &&& statement.values@ == seq![
                user_settings.domain_crawl_limit.value(),
                user_settings.inflight_domain_limit.value(),
            ]
        },
        action matches DequeueAction::Update(update) ==> match event {
            DequeueEvent::Bootstrap(Some(task)) => takes(update, task),
            DequeueEvent::Selected(Some(task)) => takes(update, task),
            _ => false,
        },
        match event {
            DequeueEvent::Start => if user_settings.inflight_crawl_limit is Finite {
                action is Count
            } else {
                action is Find
            },
            DequeueEvent::InProgress(n) => if user_settings.inflight_crawl_limit matches
                Limit::Finite(m) && n >= m {
                action == DequeueAction::<E>::Return(None)
            } else {
                action is Find
            },
            DequeueEvent::Bootstrap(Some(_)) => action is Update,
            DequeueEvent::Bootstrap(None) => action is Select,
            DequeueEvent::Selected(Some(_)) => action is Update,
            DequeueEvent::Selected(None) => action == DequeueAction::<E>::Return(None),
            DequeueEvent::Updated(task) => action == DequeueAction::<E>::Return(Some(task)),
            DequeueEvent::UpdateFailed => action == DequeueAction::<E>::Return(None),
            DequeueEvent::Failed(e) => action == DequeueAction::Fail(e),
        },
{
    match event {
        // Check for inflight limits
        DequeueEvent::Start => match user_settings.inflight_crawl_limit {
            Limit::Finite(_) => DequeueAction::Count(num_tasks_in_progress()),
            Limit::Infinite(_) => DequeueAction::Find(bootstrap_query()),
        },
        DequeueEvent::InProgress(n) => {
            // Nothing to do if we have too many crawls
            if user_settings.inflight_crawl_limit.is_reached(n) {
                DequeueAction::Return(None)
            } else {
                // Prioritize any bootstrapping tasks first.
                DequeueAction::Find(bootstrap_query())
            }
        },
        // Grab new entity and immediately mark in-progress
        DequeueEvent::Bootstrap(Some(task)) => DequeueAction::Update(take(&task)),
        // Otherwise, grab a URL off the stack & send it back.
        DequeueEvent::Bootstrap(None) => DequeueAction::Select(gen_dequeue_sql(user_settings)),
        DequeueEvent::Selected(Some(task)) => DequeueAction::Update(take(&task)),
        DequeueEvent::Selected(None) => DequeueAction::Return(None),
        DequeueEvent::Updated(task) => DequeueAction::Return(Some(task)),
        // Deleted while being processed?
        DequeueEvent::UpdateFailed => DequeueAction::Return(None),
        DequeueEvent::Failed(e) => DequeueAction::Fail(e),
    }
}

/// What to do next in order to take a file that is crawled again.
#[derive(Debug)]
pub enum RecrawlAction<E> {
    /// Count the tasks that the query selects.
    Count(TaskQuery),
    /// Find one task that the query selects.
    Find(TaskQuery),
    /// Write these columns.
    Update(ActiveModel),
    /// Return the task, or that there is none to be crawled now.
    Return(Option<Model>),
    /// Report the failure.
    Fail(E),
}

/// The contents of a `RecrawlAction`.
pub enum RecrawlActionView<E> {
    Count(TaskQueryView),
    Find(TaskQueryView),
    Update(ActiveModelView),
    Return(Option<ModelView>),
    Fail(E),
}

impl<E> View for RecrawlAction<E> {
    type V = RecrawlActionView<E>;

    open spec fn view(&self) -> RecrawlActionView<E> {
        match self {
            RecrawlAction::Count(query) => RecrawlActionView::Count(query@),
            RecrawlAction::Find(query) => RecrawlActionView::Find(query@),
            RecrawlAction::Update(update) => RecrawlActionView::Update(update@),
            RecrawlAction::Return(task) => RecrawlActionView::Return(opt_task(*task)),
            RecrawlAction::Fail(e) => RecrawlActionView::Fail(*e),
        }
    }
}

/// How far `dequeue_recrawl` has come, and the outcome of its last action.
#[derive(Debug)]
pub enum RecrawlEvent<E> {
    Start,
    /// So many tasks are in progress.
    InProgress(u64),
    /// The search for a task has ended at this instant.
    Found(Option<Model>, Timestamp),
    /// The task was written.
    Updated(Model),
    /// The task could not be written.
    UpdateFailed,
    /// Counting or searching failed.
    Failed(E),
}

/// The contents of a `RecrawlEvent`.
pub enum RecrawlEventView<E> {
    Start,
    InProgress(nat),
    Found(Option<ModelView>, int),
    Updated(ModelView),
    UpdateFailed,
    Failed(E),
}

impl<E> View for RecrawlEvent<E> {
    type V = RecrawlEventView<E>;

    open spec fn view(&self) -> RecrawlEventView<E> {
        match self {
            RecrawlEvent::Start => RecrawlEventView::Start,
            RecrawlEvent::InProgress(n) => RecrawlEventView::InProgress(*n as nat),
            RecrawlEvent::Found(task, now) => RecrawlEventView::Found(opt_task(*task), now@),
            RecrawlEvent::Updated(task) => RecrawlEventView::Updated(task@),
            RecrawlEvent::UpdateFailed => RecrawlEventView::UpdateFailed,
            RecrawlEvent::Failed(e) => RecrawlEventView::Failed(*e),
        }
    }
}

/// The local files that were crawled, the one that was updated least recently first.
pub open spec fn recrawl_tasks() -> TaskQueryView {
    TaskQueryView {
        url: UrlMatchView::StartsWith("file://"@),
        oldest_update_first: true,
        ..TaskQueryView::with_status(CrawlStatus::Completed)
    }
}

/// What `dequeue_recrawl` does next: nothing while too many tasks are in
/// progress, and nothing with a file that was updated less than a day ago; the
/// task that was found is marked before it is returned.
pub open spec fn recrawl_next<E>(
    settings: UserSettings,
    event: RecrawlEventView<E>,
) -> RecrawlActionView<E> {
    match event {
        RecrawlEventView::Start => match settings.inflight_crawl_limit {
            Limit::Finite(_) => RecrawlActionView::Count(
                TaskQueryView::with_status(CrawlStatus::Processing),
            ),
            Limit::Infinite(_) => RecrawlActionView::Find(recrawl_tasks()),
        },
        RecrawlEventView::InProgress(n) => if settings.inflight_crawl_limit.reached(n) {
            RecrawlActionView::Return(None)
        } else {
            RecrawlActionView::Find(recrawl_tasks())
        },
        RecrawlEventView::Found(Some(task), now) => if whole_days(now, task.updated_at) < 1 {
            RecrawlActionView::Return(None)
        } else {
            RecrawlActionView::Update(in_progress(task))
        },
        RecrawlEventView::Found(None, _) => RecrawlActionView::Return(None),
        RecrawlEventView::Updated(task) => RecrawlActionView::Return(Some(task)),
        RecrawlEventView::UpdateFailed => RecrawlActionView::Return(None),
        RecrawlEventView::Failed(e) => RecrawlActionView::Fail(e),
    }
}

fn recrawl_query() -> (query: TaskQuery)
    ensures
        query@ == recrawl_tasks(),
        query.id is None && query.status == Some(CrawlStatus::Completed),
        query.crawl_type is None && query.oldest_update_first,
        query.url matches UrlMatch::StartsWith(prefix) && prefix@ == "file://"@,
{
    let mut query = TaskQuery::with_status(CrawlStatus::Completed);
    query.url = UrlMatch::StartsWith("file://".to_owned());
    query.oldest_update_first = true;
    query
}

/// Get the next local file to be crawled again, step by step.
pub fn dequeue_recrawl<E>(user_settings: &UserSettings, event: RecrawlEvent<E>) -> (action:
    RecrawlAction<E>)
    ensures
        action@ == recrawl_next(*user_settings, event@),
        action matches RecrawlAction::Count(query) ==> {
            &&& query.id is None && query.status == Some(CrawlStatus::Processing)
            &&& query.crawl_type is None && query.url is Any
        },
        action matches RecrawlAction::Find(query) ==> {
            &&& query.id is None && query.status == Some(CrawlStatus::Completed)
            &&& query.crawl_type is None && query.oldest_update_first
            &&& query.url matches UrlMatch::StartsWith(prefix) && prefix@ == "file://"@
        },
        action matches RecrawlAction::Update(update) ==> match event {
            RecrawlEvent::Found(Some(task), now) => takes(update, task) && now@
                - task.updated_at@ >= 86_400_000_000_000,
            _ => false,
        },
        match event {
            RecrawlEvent::Start => if user_settings.inflight_crawl_limit is Finite {
                action is Count
            } else {
                action is Find
            },
            RecrawlEvent::InProgress(n) => if user_settings.inflight_crawl_limit matches
                Limit::Finite(m) && n >= m {
                action == RecrawlAction::<E>::Return(None)
            } else {
                action is Find
            },
            RecrawlEvent::Found(Some(task), now) => if now@ - task.updated_at@
                >= 86_400_000_000_000 {
                action is Update
            } else {
                action == RecrawlAction::<E>::Return(None)
            },
            RecrawlEvent::Found(None, _) => action == RecrawlAction::<E>::Return(None),
            RecrawlEvent::Updated(task) => action == RecrawlAction::<E>::Return(Some(task)),
            RecrawlEvent::UpdateFailed => action == RecrawlAction::<E>::Return(None),
            RecrawlEvent::Failed(e) => action == RecrawlAction::Fail(e),
        },
{
    match event {
        // Check for inflight limits
        RecrawlEvent::Start => match user_settings.inflight_crawl_limit {
            Limit::Finite(_) => RecrawlAction::Count(num_tasks_in_progress()),
            Limit::Infinite(_) => RecrawlAction::Find(recrawl_query()),
        },
        RecrawlEvent::InProgress(n) => {
            // Nothing to do if we have too many crawls
            if user_settings.inflight_crawl_limit.is_reached(n) {
                RecrawlAction::Return(None)
            } else {
                RecrawlAction::Find(recrawl_query())
            }
        },
        RecrawlEvent::Found(Some(task), now) => {
            if now.days_since(&task.updated_at) < 1 {
                RecrawlAction::Return(None)
            } else {
                // Grab new entity and immediately mark in-progress
                RecrawlAction::Update(take(&task))
            }
        },
        RecrawlEvent::Found(None, _) => RecrawlAction::Return(None),
        RecrawlEvent::Updated(task) => RecrawlAction::Return(Some(task)),
        // Deleted while being processed?
        RecrawlEvent::UpdateFailed => RecrawlAction::Return(None),
        RecrawlEvent::Failed(e) => RecrawlAction::Fail(e),
    }
}

/// What the database answers while a task is taken.
pub struct Answers {
    /// How many tasks are in progress.
    pub in_progress: nat,
    /// The task that a search finds.
    pub found: Option<ModelView>,
    /// The task that the statement selects.
    pub selected: Option<ModelView>,
    /// The task as it is after the write; nothing, if that failed.
    pub updated: Option<ModelView>,
}

/// How taking a task ended.
pub struct Taking {
    /// Whether it came to an end.
    pub ended: bool,
    /// What was written on the way.
    pub write: Option<ActiveModelView>,
    /// The task that was returned.
    pub task: Option<ModelView>,
}

/// Runs `dequeue` from an event on, with a database that does not fail.
pub open spec fn run_dequeue<E>(
    settings: UserSettings,
    answers: Answers,
    event: DequeueEventView<E>,
    write: Option<ActiveModelView>,
    steps: nat,
) -> Taking
    decreases steps,
{
    if steps == 0 {
        Taking { ended: false, write, task: None }
    } else {
        let left = (steps - 1) as nat;
        match dequeue_next(settings, event) {
            DequeueActionView::Count(_) => run_dequeue::<E>(
                settings,
                answers,
                DequeueEventView::InProgress(answers.in_progress),
                write,
                left,
            ),
            DequeueActionView::Find(_) => run_dequeue::<E>(
                settings,
                answers,
                DequeueEventView::Bootstrap(answers.found),
                write,
                left,
            ),
            DequeueActionView::Select(_, _) => run_dequeue::<E>(
                settings,
                answers,
                DequeueEventView::Selected(answers.selected),
                write,
                left,
            ),
            DequeueActionView::Update(update) => run_dequeue::<E>(
                settings,
                answers,
                match answers.updated {
                    Some(task) => DequeueEventView::Updated(task),
                    None => DequeueEventView::UpdateFailed,
                },
                Some(update),
                left,
            ),
            DequeueActionView::Return(task) => Taking { ended: true, write, task },
            DequeueActionView::Fail(_) => Taking { ended: true, write, task: None },
        }
    }
}

/// A whole run of `dequeue`.
pub open spec fn dequeue_run<E>(settings: UserSettings, answers: Answers) -> Taking {
    run_dequeue::<E>(settings, answers, DequeueEventView::Start, None, 6)
}

/// Runs `dequeue_recrawl` from an event on, with a database that does not fail.
pub open spec fn run_recrawl<E>(
    settings: UserSettings,
    answers: Answers,
    now: int,
    event: RecrawlEventView<E>,
    write: Option<ActiveModelView>,
    steps: nat,
) -> Taking
    decreases steps,
{
    if steps == 0 {
        Taking { ended: false, write, task: None }
    } else {
        let left = (steps - 1) as nat;
        match recrawl_next(settings, event) {
            RecrawlActionView::Count(_) => run_recrawl::<E>(
                settings,
                answers,
                now,
                RecrawlEventView::InProgress(answers.in_progress),
                write,
                left,
            ),
            RecrawlActionView::Find(_) => run_recrawl::<E>(
                settings,
                answers,
                now,
                RecrawlEventView::Found(answers.found, now),
                write,
                left,
            ),
            RecrawlActionView::Update(update) => run_recrawl::<E>(
                settings,
                answers,
                now,
                match answers.updated {
                    Some(task) => RecrawlEventView::Updated(task),
                    None => RecrawlEventView::UpdateFailed,
                },
                Some(update),
                left,
            ),
            RecrawlActionView::Return(task) => Taking { ended: true, write, task },
            RecrawlActionView::Fail(_) => Taking { ended: true, write, task: None },
        }
    }
}

/// A whole run of `dequeue_recrawl`.
pub open spec fn recrawl_run<E>(settings: UserSettings, answers: Answers, now: int) -> Taking {
    run_recrawl::<E>(settings, answers, now, RecrawlEventView::Start, None, 5)
}

/// Taking a task that was found: it is marked as in progress, and what is
/// returned is the task as it is after that; nothing, if it is gone by then.
pub open spec fn taken(task: ModelView, updated: Option<ModelView>) -> Taking {
    Taking {
        ended: true,
        write: Some(in_progress(task)),
        task: updated,
    }
}

/// Taking no task: nothing is written.
pub open spec fn nothing_taken() -> Taking {
    Taking { ended: true, write: None, task: None }
}

/// `dequeue` comes to an end. While as many tasks as allowed are in progress it
/// takes none; else a bootstrapping task comes before any other.
pub proof fn law_dequeue_run<E>(settings: UserSettings, answers: Answers)
    ensures
        dequeue_run::<E>(settings, answers) == (if settings.inflight_crawl_limit.reached(
            answers.in_progress,
        ) {
            nothing_taken()
        } else {
            match answers.found {
                Some(task) => taken(task, answers.updated),
                None => match answers.selected {
                    Some(task) => taken(task, answers.updated),
                    None => nothing_taken(),
                },
            }
        }),
{
    reveal_with_fuel(run_dequeue, 7);
}

/// `dequeue_recrawl` comes to an end. While as many tasks as allowed are in
/// progress it takes none, and it takes no file that was updated less than a day
/// ago.
pub proof fn law_recrawl_run<E>(settings: UserSettings, answers: Answers, now: int)
    ensures
        recrawl_run::<E>(settings, answers, now) == (if settings.inflight_crawl_limit.reached(
            answers.in_progress,
        ) {
            nothing_taken()
        } else {
            match answers.found {
                Some(task) => if whole_days(now, task.updated_at) < 1 {
                    nothing_taken()
                } else {
                    taken(task, answers.updated)
                },
                None => nothing_taken(),
            }
        }),
{
    reveal_with_fuel(run_recrawl, 6);
}

/// The rows of a domain that are in progress.
pub open spec fn in_flight(table: Table, domain: Seq<char>) -> Set<int> {
    table.dom().filter(
        |id: int| table[id].status == CrawlStatus::Processing && table[id].domain == domain,
    )
}

/// Whether a task may be crawled as far as its domain is concerned. `indexed`
/// tells how many documents of a domain are indexed.
pub open spec fn ready(
    table: Table,
    indexed: spec_fn(Seq<char>) -> nat,
    settings: UserSettings,
    task: ModelView,
) -> bool {
    &&& task.status == CrawlStatus::Queued
    &&& indexed(task.domain) < settings.domain_crawl_limit.value()
    &&& in_flight(table, task.domain).len() < settings.inflight_domain_limit.value()
}

/// Whether `reply` is a faithful answer to the statement that selects the next
/// task: of the tasks that are ready, one that was updated least recently.
pub open spec fn answers_next(
    table: Table,
    indexed: spec_fn(Seq<char>) -> nat,
    settings: UserSettings,
    reply: Option<ModelView>,
) -> bool {
    match reply {
        Some(row) => {
            &&& table.contains_key(row.id) && table[row.id] == row
            &&& ready(table, indexed, settings, row)
            &&& forall|id: int| #[trigger]
                table.contains_key(id) && ready(table, indexed, settings, table[id])
                    ==> row.updated_at <= table[id].updated_at
        },
        None => forall|id: int| #[trigger]
            table.contains_key(id) ==> !ready(table, indexed, settings, table[id]),
    }
}

/// The tasks that are in progress.
pub open spec fn processing(table: Table) -> Set<int> {
    selected(table, TaskQueryView::with_status(CrawlStatus::Processing))
}

/// Whether the database answers `dequeue` faithfully.
pub open spec fn faithful(
    table: Table,
    indexed: spec_fn(Seq<char>) -> nat,
    settings: UserSettings,
    replies: Answers,
) -> bool {
    &&& replies.in_progress == processing(table).len()
    &&& answers(table, bootstrap_tasks(), replies.found)
    &&& answers_next(table, indexed, settings, replies.selected)
}

/// Marking one task as in progress adds it to those that are, and changes
/// nothing else but its date.
proof fn lemma_marking(table: Table, id: int, now: int)
    requires
        valid(table),
        table.contains_key(id),
    ensures
        ({
            let update = ActiveModelView::only_status(id, CrawlStatus::Processing);
            let after = updated(table, update, now);
            &&& valid(after)
            &&& after == table.insert(
                id,
                ModelView { status: CrawlStatus::Processing, updated_at: now, ..table[id] },
            )
            &&& processing(after) == processing(table).insert(id)
            &&& in_flight(after, table[id].domain) == in_flight(table, table[id].domain).insert(id)
            &&& processing(table).finite()
            &&& in_flight(table, table[id].domain).finite()
        }),
{
    let update = ActiveModelView::only_status(id, CrawlStatus::Processing);
    let after = updated(table, update, now);
    let domain = table[id].domain;
    lemma_update_keeps_valid(table, update, now);
    assert(processing(after) =~= processing(table).insert(id));
    assert(in_flight(after, domain) =~= in_flight(table, domain).insert(id));
    table.dom().lemma_len_filter(
        |i: int| TaskQueryView::with_status(CrawlStatus::Processing).selects(table[i]),
    );
    table.dom().lemma_len_filter(
        |i: int| table[i].status == CrawlStatus::Processing && table[i].domain == domain,
    );
}

/// With a faithful database, `dequeue` takes a task that was queued, marks it
/// as in progress and leaves every other task as it was. It never takes the
/// number of tasks in progress over its limit; nor that of the task's domain,
/// unless the task bootstraps a lens.
pub proof fn law_dequeue_takes_a_queued_task<E>(
    table: Table,
    indexed: spec_fn(Seq<char>) -> nat,
    settings: UserSettings,
    replies: Answers,
    now: int,
    id: int,
)
    requires
        valid(table),
        faithful(table, indexed, settings, replies),
        dequeue_run::<E>(settings, replies).write matches Some(update) && update.id == Some(id),
    ensures
        ({
            let after = updated(table, dequeue_run::<E>(settings, replies).write->0, now);
            &&& table.contains_key(id)
            &&& table[id].status == CrawlStatus::Queued
            &&& valid(after)
            &&& after == table.insert(
                id,
                ModelView { status: CrawlStatus::Processing, updated_at: now, ..table[id] },
            )
            &&& settings.inflight_crawl_limit matches Limit::Finite(limit) ==> processing(
                after,
            ).len() <= limit
            &&& table[id].crawl_type != CrawlType::Bootstrap ==> in_flight(
                after,
                table[id].domain,
            ).len() <= settings.inflight_domain_limit.value()
        }),
{
    law_dequeue_run::<E>(settings, replies);
    lemma_marking(table, id, now);
}

/// With a faithful database, `dequeue` comes back empty-handed without being
/// held up by the limit only if no task is ready.
pub proof fn law_dequeue_finds_what_is_ready<E>(
    table: Table,
    indexed: spec_fn(Seq<char>) -> nat,
    settings: UserSettings,
    replies: Answers,
    id: int,
)
    requires
        valid(table),
        faithful(table, indexed, settings, replies),
        !settings.inflight_crawl_limit.reached(processing(table).len()),
        table.contains_key(id),
        ready(table, indexed, settings, table[id]) || bootstrap_tasks().selects(table[id]),
    ensures
        dequeue_run::<E>(settings, replies).write is Some,
{
    law_dequeue_run::<E>(settings, replies);
    if bootstrap_tasks().selects(table[id]) {
        assert(selected(table, bootstrap_tasks()).contains(id));
    }
}

/// With a faithful database, `dequeue_recrawl` takes only a local file that was
/// crawled and has not been updated for a day, and of those the one that was
/// updated least recently. It never takes the number of tasks in progress over
/// its limit.
pub proof fn law_recrawl_takes_an_old_file<E>(
    table: Table,
    settings: UserSettings,
    replies: Answers,
    now: int,
    id: int,
)
    requires
        valid(table),
        replies.in_progress == processing(table).len(),
        answers(table, recrawl_tasks(), replies.found),
        recrawl_run::<E>(settings, replies, now).write matches Some(update) && update.id == Some(id),
    ensures
        ({
            let after = updated(table, recrawl_run::<E>(settings, replies, now).write->0, now);
            &&& table.contains_key(id)
            &&& table[id].status == CrawlStatus::Completed
            &&& table[id].url.len() >= "file://"@.len()
            &&& forall|i: int|
                0 <= i < "file://"@.len() ==> ascii_lower(#[trigger] "file://"@[i]) == ascii_lower(
                    table[id].url[i],
                )
            &&& now - table[id].updated_at >= 86_400_000_000_000
            &&& forall|other: int| #[trigger]
                selected(table, recrawl_tasks()).contains(other) ==> table[id].updated_at
                    <= table[other].updated_at
            &&& valid(after)
            &&& after == table.insert(
                id,
                ModelView { status: CrawlStatus::Processing, updated_at: now, ..table[id] },
            )
            &&& settings.inflight_crawl_limit matches Limit::Finite(limit) ==> processing(
                after,
            ).len() <= limit
        }),
{
    law_recrawl_run::<E>(settings, replies, now);
    lemma_marking(table, id, now);
    reveal_strlit("file://");
    law_prefix_pattern("file://"@, table[id].url);
}

} // verus!
