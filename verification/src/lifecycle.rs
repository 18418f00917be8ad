//! What becomes of a task once it has been crawled. As with taking a task, the
//! caller performs each action on the database and hands its outcome back.
use vstd::prelude::*;

use crate::query::{TaskQuery, TaskQueryView, UrlMatch, UrlMatchView};
use crate::table::{answers, deleted, selected, updated, valid, written, Table};
use crate::task::{
    opt_task, ActiveModel, ActiveModelView, CrawlStatus, Model, ModelView, TagPair,
};
use crate::time::Timestamp;

verus! {

/// How often a task that failed may have been tried again before.
pub const MAX_RETRIES: u8 = 5;

/// What the caller reports where the task that is to get a URL does not exist.
pub const TASK_NOT_FOUND: &'static str = "Task not found";

/// A row that connects a task to a tag.
#[derive(Clone, Copy, Debug)]
pub struct CrawlTag {
    pub crawl_queue_id: Option<i64>,
    pub tag_id: i64,
    pub created_at: Timestamp,
    pub updated_at: Timestamp,
}

/// Rows that one statement inserts.
#[derive(Debug)]
pub struct TagInsert {
    pub rows: Vec<CrawlTag>,
    /// Whether a row is passed over where the same task and tag are connected
    /// already.
    pub ignore_duplicates: bool,
}

/// The tags that could be found or created, in order.
pub open spec fn known_tags<E>(found: Seq<Result<i64, E>>) -> Seq<i64>
    decreases found.len(),
{
    if found.len() == 0 {
        Seq::empty()
    } else {
        match found.last() {
            Ok(tag) => known_tags(found.drop_last()).push(tag),
            Err(_) => known_tags(found.drop_last()),
        }
    }
}

impl ActiveModel {
    /// The rows that connect the task to its tags. `found` tells of each tag
    /// its id, or why it could be neither found nor created: such a tag is left
    /// out.
    pub fn insert_tags<E>(&self, found: &Vec<Result<i64, E>>, now: Timestamp) -> (insert: TagInsert)
        ensures
            insert.rows@.len() == known_tags(found@).len(),
            forall|i: int|
                0 <= i < insert.rows@.len() ==> {
                    &&& (#[trigger] insert.rows@[i]).crawl_queue_id == self.id
                    &&& insert.rows@[i].tag_id == known_tags(found@)[i]
                    &&& insert.rows@[i].created_at@ == now@
                    &&& insert.rows@[i].updated_at@ == now@
                },
            insert.ignore_duplicates,
    {
        let mut rows: Vec<CrawlTag> = Vec::new();
        for i in 0..found.len()
            invariant
                rows@.len() == known_tags(found@.take(i as int)).len(),
                forall|j: int|
                    0 <= j < rows@.len() ==> {
                        &&& (#[trigger] rows@[j]).crawl_queue_id == self.id
                        &&& rows@[j].tag_id == known_tags(found@.take(i as int))[j]
                        &&& rows@[j].created_at@ == now@
                        &&& rows@[j].updated_at@ == now@
                    },
        {
            assert(found@.take(i + 1).drop_last() =~= found@.take(i as int));
            match &found[i] {
                Ok(tag) => {
                    rows.push(
                        CrawlTag {
                            crawl_queue_id: self.id,
                            tag_id: *tag,
                            created_at: now,
                            updated_at: now,
                        },
                    );
                },
                Err(_) => {},
            }
        }
        assert(found@.take(found.len() as int) =~= found@);
        TagInsert { rows, ignore_duplicates: true }
    }
}

/// How far `mark_done` has come, and the outcome of its last action.
#[derive(Debug)]
pub enum MarkDoneEvent {
    Start,
    /// The search for the task has ended; a search that failed found nothing.
    Found(Option<Model>),
    /// The task has been tagged, as far as that was possible.
    Tagged(ActiveModel),
    /// The task was written; nothing, if that failed.
    Updated(Option<Model>),
}

/// What to do next in order to mark a task as done.
#[derive(Debug)]
pub enum MarkDoneAction {
    /// Find the task that the query selects.
    Find(TaskQuery),
    /// Connect the task to these tags, and hand it back.
    Tag(ActiveModel, Vec<TagPair>),
    /// Write these columns.
    Update(ActiveModel),
    /// Return the task; nothing, if it is gone.
    Return(Option<Model>),
}

/// The contents of a `MarkDoneEvent`.
pub enum MarkDoneEventView {
    Start,
    Found(Option<ModelView>),
    Tagged(ActiveModelView),
    Updated(Option<ModelView>),
}

impl View for MarkDoneEvent {
    type V = MarkDoneEventView;

    open spec fn view(&self) -> MarkDoneEventView {
        match self {
            MarkDoneEvent::Start => MarkDoneEventView::Start,
            MarkDoneEvent::Found(task) => MarkDoneEventView::Found(opt_task(*task)),
            MarkDoneEvent::Tagged(row) => MarkDoneEventView::Tagged(row@),
            MarkDoneEvent::Updated(task) => MarkDoneEventView::Updated(opt_task(*task)),
        }
    }
}

/// The contents of a `MarkDoneAction`.
pub enum MarkDoneActionView {
    Find(TaskQueryView),
    Tag(ActiveModelView, Seq<TagPair>),
    Update(ActiveModelView),
    Return(Option<ModelView>),
}

impl View for MarkDoneAction {
    type V = MarkDoneActionView;

    open spec fn view(&self) -> MarkDoneActionView {
        match self {
            MarkDoneAction::Find(query) => MarkDoneActionView::Find(query@),
            MarkDoneAction::Tag(row, tags) => MarkDoneActionView::Tag(row@, tags@),
            MarkDoneAction::Update(update) => MarkDoneActionView::Update(update@),
            MarkDoneAction::Return(task) => MarkDoneActionView::Return(opt_task(*task)),
        }
    }
}

/// What `mark_done` does next: a task that exists is tagged, if there are tags,
/// and then written as completed.
pub open spec fn mark_done_next(
    id: int,
    tags: Option<Vec<TagPair>>,
    event: MarkDoneEventView,
) -> MarkDoneActionView {
    match event {
        MarkDoneEventView::Start => MarkDoneActionView::Find(TaskQueryView::with_id(id)),
        MarkDoneEventView::Found(None) => MarkDoneActionView::Return(None),
        MarkDoneEventView::Found(Some(task)) => match tags {
            Some(list) => MarkDoneActionView::Tag(
                ActiveModelView::untouched(Some(task.id)),
                list@,
            ),
            None => MarkDoneActionView::Update(
                ActiveModelView::only_status(task.id, CrawlStatus::Completed),
            ),
        },
        MarkDoneEventView::Tagged(row) => MarkDoneActionView::Update(
            ActiveModelView { status: Some(CrawlStatus::Completed), ..row },
        ),
        MarkDoneEventView::Updated(task) => MarkDoneActionView::Return(task),
    }
}

/// Marks a task as completed, and tags it before if it has tags.
pub fn mark_done(id: i64, tags: Option<Vec<TagPair>>, event: MarkDoneEvent) -> (action:
    MarkDoneAction)
    ensures
        action@ == mark_done_next(id as int, tags, event@),
        action matches MarkDoneAction::Find(query) ==> {
            &&& query.id == Some(id) && query.status is None
            &&& query.crawl_type is None && query.url is Any
        },
        action matches MarkDoneAction::Tag(row, list) ==> {
            &&& event matches MarkDoneEvent::Found(Some(task)) && row.id == Some(task.id)
            &&& tags == Some(list)
        },
        action matches MarkDoneAction::Update(update) ==> {
            &&& update.status == Some(CrawlStatus::Completed)
            &&& event matches MarkDoneEvent::Found(Some(task)) ==> tags is None
                && only_status_set(update, task.id)
            &&& event matches MarkDoneEvent::Tagged(row) ==> update == (ActiveModel {
                status: Some(CrawlStatus::Completed),
                ..row
            })
        },
        match event {
            MarkDoneEvent::Start => action is Find,
            MarkDoneEvent::Found(None) => action == MarkDoneAction::Return(None),
            MarkDoneEvent::Found(Some(_)) => if tags is Some {
                action is Tag
            } else {
                action is Update
            },
            MarkDoneEvent::Tagged(_) => action is Update,
            MarkDoneEvent::Updated(task) => action == MarkDoneAction::Return(task),
        },
{
    match event {
        MarkDoneEvent::Start => MarkDoneAction::Find(TaskQuery::with_id(id)),
        MarkDoneEvent::Found(None) => MarkDoneAction::Return(None),
        MarkDoneEvent::Found(Some(task)) => {
            let row = ActiveModel::of(&task);
            match tags {
                Some(list) => MarkDoneAction::Tag(row, list),
                None => complete(row),
            }
        },
        MarkDoneEvent::Tagged(row) => complete(row),
        MarkDoneEvent::Updated(task) => MarkDoneAction::Return(task),
    }
}

/// Whether no column of the task `id` but the status is written.
pub open spec fn only_status_set(update: ActiveModel, id: i64) -> bool {
    &&& update.id == Some(id)
    &&& update.status is Some
    &&& update.domain is None && update.url is None && update.num_retries is None
    &&& update.crawl_type is None && update.pipeline is None
    &&& update.created_at is None && update.updated_at is None
}

fn complete(row: ActiveModel) -> (action: MarkDoneAction)
    ensures
        action == MarkDoneAction::Update(
            ActiveModel { status: Some(CrawlStatus::Completed), ..row },
        ),
        action@ == MarkDoneActionView::Update(
            ActiveModelView { status: Some(CrawlStatus::Completed), ..row@ },
        ),
{
    let mut update = row;
    update.status = Some(CrawlStatus::Completed);
    MarkDoneAction::Update(update)
}

/// How far `mark_failed` has come, and the outcome of its last action.
#[derive(Debug)]
pub enum MarkFailedEvent {
    Start,
    /// The search for the task has ended; a search that failed found nothing.
    Found(Option<Model>),
    /// The task was written, or could not be.
    Updated,
}

/// What to do next in order to mark a task as failed.
#[derive(Debug)]
pub enum MarkFailedAction {
    /// Find the task that the query selects.
    Find(TaskQuery),
    /// Write these columns.
    Update(ActiveModel),
    /// There is nothing left to do.
    Return,
}

/// What is written of a task that failed: it is queued once more and its
/// retries are counted, as long as it may be tried again and was not tried too
/// often; else it has failed for good.
pub open spec fn failure(task: ModelView, retry: bool) -> ActiveModelView {
    if retry && task.num_retries <= MAX_RETRIES {
        ActiveModelView {
            num_retries: Some(task.num_retries + 1),
            ..ActiveModelView::only_status(task.id, CrawlStatus::Queued)
        }
    } else {
        ActiveModelView::only_status(task.id, CrawlStatus::Failed)
    }
}

/// Marks a task as failed, or queues it once more if `retry` says so and it was
/// not tried too often.
pub fn mark_failed(id: i64, retry: bool, event: MarkFailedEvent) -> (action: MarkFailedAction)
    ensures
        match event {
            MarkFailedEvent::Start => action matches MarkFailedAction::Find(query) && query@
                == TaskQueryView::with_id(id as int),
            MarkFailedEvent::Found(None) => action == MarkFailedAction::Return,
            MarkFailedEvent::Found(Some(task)) => action matches MarkFailedAction::Update(update)
                && update@ == failure(task@, retry),
            MarkFailedEvent::Updated => action == MarkFailedAction::Return,
        },
        action matches MarkFailedAction::Find(query) ==> {
            &&& query.id == Some(id) && query.status is None
            &&& query.crawl_type is None && query.url is Any
        },
        event matches MarkFailedEvent::Found(Some(task)) ==> (
        action matches MarkFailedAction::Update(update) && {
            &&& update.id == Some(task.id)
            &&& update.domain is None && update.url is None
            &&& update.crawl_type is None && update.pipeline is None
            &&& update.created_at is None && update.updated_at is None
            &&& if retry && task.num_retries <= 5 {
                &&& update.status == Some(CrawlStatus::Queued)
                &&& update.num_retries matches Some(n) && n == task.num_retries + 1
            } else {
                update.status == Some(CrawlStatus::Failed) && update.num_retries is None
            }
        }),
{
    match event {
        MarkFailedEvent::Start => MarkFailedAction::Find(TaskQuery::with_id(id)),
        MarkFailedEvent::Found(None) => MarkFailedAction::Return,
        MarkFailedEvent::Found(Some(task)) => {
            let mut update = ActiveModel::of(&task);
            // Bump up number of retries if this failed
            if retry && task.num_retries <= MAX_RETRIES {
                update.num_retries = Some(task.num_retries + 1);
                // Queue again
                update.status = Some(CrawlStatus::Queued);
            } else {
                update.status = Some(CrawlStatus::Failed);
            }
            MarkFailedAction::Update(update)
        },
        MarkFailedEvent::Updated => MarkFailedAction::Return,
    }
}

/// How far `update_or_remove_task` has come, and the outcome of its last action.
#[derive(Debug)]
pub enum UpdateTaskEvent<E> {
    Start,
    /// The search for a task with the URL has ended.
    ByUrl(Option<Model>),
    /// The search for the task itself has ended.
    ById(Option<Model>),
    /// The write or the removal was performed; the task comes back with it.
    Written(Model),
    /// The last action failed.
    Failed(E),
}

/// What to do next in order to give a task its URL.
#[derive(Debug)]
pub enum UpdateTaskAction<E> {
    /// Find a task that the query selects, by its URL.
    FindByUrl(TaskQuery),
    /// Find the task that the query selects, by its id.
    FindById(TaskQuery),
    /// Remove the task with this id, and hand the other one back.
    Delete(i64, Model),
    /// Write these columns, and hand the task back.
    Save(ActiveModel, Model),
    /// Return the task that has the URL.
    Return(Model),
    /// Report that there is no such task.
    NotFound,
    /// Report the failure.
    Fail(E),
}

/// The contents of an `UpdateTaskAction`.
pub enum UpdateTaskActionView<E> {
    FindByUrl(TaskQueryView),
    FindById(TaskQueryView),
    Delete(int, ModelView),
    Save(ActiveModelView, ModelView),
    Return(ModelView),
    NotFound,
    Fail(E),
}

impl<E> View for UpdateTaskAction<E> {
    type V = UpdateTaskActionView<E>;

    open spec fn view(&self) -> UpdateTaskActionView<E> {
        match self {
            UpdateTaskAction::FindByUrl(query) => UpdateTaskActionView::FindByUrl(query@),
            UpdateTaskAction::FindById(query) => UpdateTaskActionView::FindById(query@),
            UpdateTaskAction::Delete(id, task) => UpdateTaskActionView::Delete(*id as int, task@),
            UpdateTaskAction::Save(update, task) => UpdateTaskActionView::Save(update@, task@),
            UpdateTaskAction::Return(task) => UpdateTaskActionView::Return(task@),
            UpdateTaskAction::NotFound => UpdateTaskActionView::NotFound,
            UpdateTaskAction::Fail(e) => UpdateTaskActionView::Fail(*e),
        }
    }
}

/// The contents of an `UpdateTaskEvent`.
pub enum UpdateTaskEventView<E> {
    Start,
    ByUrl(Option<ModelView>),
    ById(Option<ModelView>),
    Written(ModelView),
    Failed(E),
}

impl<E> View for UpdateTaskEvent<E> {
    type V = UpdateTaskEventView<E>;

    open spec fn view(&self) -> UpdateTaskEventView<E> {
        match self {
            UpdateTaskEvent::Start => UpdateTaskEventView::Start,
            UpdateTaskEvent::ByUrl(task) => UpdateTaskEventView::ByUrl(opt_task(*task)),
            UpdateTaskEvent::ById(task) => UpdateTaskEventView::ById(opt_task(*task)),
            UpdateTaskEvent::Written(task) => UpdateTaskEventView::Written(task@),
            UpdateTaskEvent::Failed(e) => UpdateTaskEventView::Failed(*e),
        }
    }
}

/// What `update_or_remove_task` does next: a task that has the URL already
/// makes the task `id` superfluous, unless it is that task; without one, the
/// task `id` gets the URL.
pub open spec fn update_task_next<E>(
    id: int,
    url: Seq<char>,
    event: UpdateTaskEventView<E>,
) -> UpdateTaskActionView<E> {
    match event {
        UpdateTaskEventView::Start => UpdateTaskActionView::FindByUrl(
            TaskQueryView::with_url(UrlMatchView::Is(url)),
        ),
        UpdateTaskEventView::ByUrl(Some(existing)) => if existing.id != id {
            UpdateTaskActionView::Delete(id, existing)
        } else {
            UpdateTaskActionView::Return(existing)
        },
        UpdateTaskEventView::ByUrl(None) => UpdateTaskActionView::FindById(
            TaskQueryView::with_id(id),
        ),
        UpdateTaskEventView::ById(Some(task)) => if task.url != url {
            UpdateTaskActionView::Save(
                ActiveModelView { url: Some(url), ..ActiveModelView::untouched(Some(task.id)) },
                ModelView { url, ..task },
            )
        } else {
            UpdateTaskActionView::Return(task)
        },
        UpdateTaskEventView::ById(None) => UpdateTaskActionView::NotFound,
        UpdateTaskEventView::Written(task) => UpdateTaskActionView::Return(task),
        UpdateTaskEventView::Failed(e) => UpdateTaskActionView::Fail(e),
    }
}

/// Update the URL of a task. Typically used after a crawl to set the canonical
/// URL extracted from the crawl result. If there's a conflict, this means
/// another crawl task already points to the same URL and thus can be safely
/// removed.
pub fn update_or_remove_task<E>(id: i64, url: &str, event: UpdateTaskEvent<E>) -> (action:
    UpdateTaskAction<E>)
    ensures
        action@ == update_task_next(id as int, url@, event@),
        action matches UpdateTaskAction::FindByUrl(query) ==> {
            &&& query.id is None && query.status is None && query.crawl_type is None
            &&& query.url matches UrlMatch::Is(text) && text@ == url@
        },
        action matches UpdateTaskAction::FindById(query) ==> {
            &&& query.id == Some(id) && query.status is None
            &&& query.crawl_type is None && query.url is Any
        },
        action matches UpdateTaskAction::Delete(gone, other) ==> {
            &&& gone == id && other.id != id
            &&& event == UpdateTaskEvent::<E>::ByUrl(Some(other))
        },
        action matches UpdateTaskAction::Save(update, renamed) ==> (
        event matches UpdateTaskEvent::ById(Some(task)) && {
            &&& update.id == Some(task.id)
            &&& update.url matches Some(text) && text@ == url@
            &&& update.domain is None && update.status is None && update.num_retries is None
            &&& update.crawl_type is None && update.pipeline is None
            &&& update.created_at is None && update.updated_at is None
            &&& renamed == (Model { url: renamed.url, ..task }) && renamed.url@ == url@
        }),
        match event {
            UpdateTaskEvent::Start => action is FindByUrl,
            UpdateTaskEvent::ByUrl(Some(existing)) => if existing.id != id {
                action is Delete
            } else {
                action == UpdateTaskAction::<E>::Return(existing)
            },
            UpdateTaskEvent::ByUrl(None) => action is FindById,
            UpdateTaskEvent::ById(Some(task)) => if task.url@ != url@ {
                action is Save
            } else {
                action == UpdateTaskAction::<E>::Return(task)
            },
            UpdateTaskEvent::ById(None) => action is NotFound,
            UpdateTaskEvent::Written(task) => action == UpdateTaskAction::<E>::Return(task),
            UpdateTaskEvent::Failed(e) => action == UpdateTaskAction::Fail(e),
        },
{
    match event {
        UpdateTaskEvent::Start => UpdateTaskAction::FindByUrl(
            TaskQuery::with_url(UrlMatch::Is(url.to_owned())),
        ),
        // Task already exists w/ this URL, remove this one.
        UpdateTaskEvent::ByUrl(Some(existing)) => {
            if existing.id != id {
                UpdateTaskAction::Delete(id, existing)
            } else {
                UpdateTaskAction::Return(existing)
            }
        },
        UpdateTaskEvent::ByUrl(None) => UpdateTaskAction::FindById(TaskQuery::with_id(id)),
        UpdateTaskEvent::ById(Some(task)) => {
            if task.url != url.to_owned() {
                let mut update = ActiveModel::of(&task);
                update.url = Some(url.to_owned());
                let mut task = task;
                task.url = url.to_owned();
                UpdateTaskAction::Save(update, task)
            } else {
                UpdateTaskAction::Return(task)
            }
        },
        UpdateTaskEvent::ById(None) => UpdateTaskAction::NotFound,
        UpdateTaskEvent::Written(task) => UpdateTaskAction::Return(task),
        UpdateTaskEvent::Failed(e) => UpdateTaskAction::Fail(e),
    }
}

/// A task after it has failed at each of the instants, each time to be tried
/// again.
pub open spec fn after_failures(task: ModelView, instants: Seq<int>) -> ModelView
    decreases instants.len(),
{
    if instants.len() == 0 {
        task
    } else {
        let before = after_failures(task, instants.drop_last());
        written(before, failure(before, true).stamped(false, instants.last()))
    }
}

/// A task that keeps failing is queued again one time more than `MAX_RETRIES`
/// says, and has failed for good from then on. Its retries are counted and never
/// exceed that number.
pub proof fn law_retries_are_bounded(task: ModelView, instants: Seq<int>)
    requires
        0 <= task.num_retries <= MAX_RETRIES + 1,
        instants.len() > 0,
    ensures
        after_failures(task, instants) == (if task.num_retries + instants.len() <= MAX_RETRIES + 1 {
            ModelView {
                status: CrawlStatus::Queued,
                num_retries: task.num_retries + instants.len(),
                updated_at: instants.last(),
                ..task
            }
        } else {
            ModelView {
                status: CrawlStatus::Failed,
                num_retries: MAX_RETRIES + 1,
                updated_at: instants.last(),
                ..task
            }
        }),
    decreases instants.len(),
{
    let init = instants.drop_last();
    if init.len() > 0 {
        law_retries_are_bounded(task, init);
    } else {
        assert(after_failures(task, init) == task);
    }
}

/// A task that is not to be tried again has failed at once, however often it
/// was tried, and its retries are not counted. But for its date, it is otherwise
/// left as it is.
pub proof fn law_no_retry_fails_at_once(task: ModelView, now: int)
    ensures
        written(task, failure(task, false).stamped(false, now)) == (ModelView {
            status: CrawlStatus::Failed,
            updated_at: now,
            ..task
        }),
{
}

/// A task that is marked as done is written as completed and, but for its date,
/// otherwise left as it is, whether it was tagged before or not.
pub proof fn law_done_means_completed(
    id: int,
    tags: Option<Vec<TagPair>>,
    task: ModelView,
    now: int,
)
    ensures
        ({
            let found = mark_done_next(id, tags, MarkDoneEventView::Found(Some(task)));
            let last = match found {
                MarkDoneActionView::Tag(row, _) => mark_done_next(
                    id,
                    tags,
                    MarkDoneEventView::Tagged(row),
                ),
                _ => found,
            };
            &&& last == MarkDoneActionView::Update(
                ActiveModelView::only_status(task.id, CrawlStatus::Completed),
            )
            &&& written(
                task,
                ActiveModelView::only_status(task.id, CrawlStatus::Completed).stamped(false, now),
            ) == (ModelView { status: CrawlStatus::Completed, updated_at: now, ..task })
        }),
{
}

/// What the database answers while a task is given its URL.
pub struct UrlAnswers {
    /// The task that has the URL.
    pub by_url: Option<ModelView>,
    /// The task itself.
    pub by_id: Option<ModelView>,
}

/// How giving a task its URL ended.
pub struct Renaming {
    /// Whether it came to an end.
    pub ended: bool,
    /// The task that was removed on the way.
    pub removed: Option<int>,
    /// What was written on the way.
    pub write: Option<ActiveModelView>,
    /// The task that was returned; nothing, if there is no such task.
    pub task: Option<ModelView>,
}

/// Runs `update_or_remove_task` from an event on, with a database that does not
/// fail.
pub open spec fn run_update<E>(
    id: int,
    url: Seq<char>,
    replies: UrlAnswers,
    event: UpdateTaskEventView<E>,
    so_far: Renaming,
    steps: nat,
) -> Renaming
    decreases steps,
{
    if steps == 0 {
        so_far
    } else {
        let left = (steps - 1) as nat;
        match update_task_next(id, url, event) {
            UpdateTaskActionView::FindByUrl(_) => run_update::<E>(
                id,
                url,
                replies,
                UpdateTaskEventView::ByUrl(replies.by_url),
                so_far,
                left,
            ),
            UpdateTaskActionView::FindById(_) => run_update::<E>(
                id,
                url,
                replies,
                UpdateTaskEventView::ById(replies.by_id),
                so_far,
                left,
            ),
            UpdateTaskActionView::Delete(gone, task) => run_update::<E>(
                id,
                url,
                replies,
                UpdateTaskEventView::Written(task),
                Renaming { removed: Some(gone), ..so_far },
                left,
            ),
            UpdateTaskActionView::Save(update, task) => run_update::<E>(
                id,
                url,
                replies,
                UpdateTaskEventView::Written(task),
                Renaming { write: Some(update), ..so_far },
                left,
            ),
            UpdateTaskActionView::Return(task) => Renaming {
                ended: true,
                task: Some(task),
                ..so_far
            },
            _ => Renaming { ended: true, task: None, ..so_far },
        }
    }
}

/// A whole run of `update_or_remove_task`.
pub open spec fn update_run<E>(id: int, url: Seq<char>, replies: UrlAnswers) -> Renaming {
    run_update::<E>(
        id,
        url,
        replies,
        UpdateTaskEventView::Start,
        Renaming { ended: false, removed: None, write: None, task: None },
        4,
    )
}

/// The table after a run of `update_or_remove_task` at the instant `now`.
pub open spec fn renamed(table: Table, end: Renaming, now: int) -> Table {
    match end.removed {
        Some(gone) => deleted(table, gone),
        None => match end.write {
            Some(update) => updated(table, update, now),
            None => table,
        },
    }
}

/// With a faithful database, `update_or_remove_task` comes to an end and returns
/// a task with the URL, unless neither such a task nor the task itself exists.
/// Then one task in the queue has the URL, and it is the one that was returned;
/// a duplicate is removed, no URL is in the queue twice, and all other tasks stay
/// as they were.
pub proof fn law_update_leaves_one_task<E>(
    table: Table,
    id: int,
    url: Seq<char>,
    replies: UrlAnswers,
    now: int,
)
    requires
        valid(table),
        answers(table, TaskQueryView::with_url(UrlMatchView::Is(url)), replies.by_url),
        answers(table, TaskQueryView::with_id(id), replies.by_id),
    ensures
        ({
            let end = update_run::<E>(id, url, replies);
            let after = renamed(table, end, now);
            &&& end.ended
            &&& end.removed is None || end.write is None
            &&& valid(after)
            &&& match end.task {
                Some(task) => {
                    &&& task.url == url
                    &&& after.contains_key(task.id) && after[task.id].url == url
                    &&& task.id != id ==> !after.contains_key(id)
                    &&& forall|other: int|
                        other != id ==> (#[trigger] after.contains_key(other)
                            <==> table.contains_key(other)) && (table.contains_key(other)
                            ==> after[other] == table[other])
                },
                None => {
                    &&& !table.contains_key(id)
                    &&& after == table
                    &&& forall|other: int| #[trigger]
                        table.contains_key(other) ==> table[other].url != url
                },
            }
        }),
{
    reveal_with_fuel(run_update, 5);
    let by_url = TaskQueryView::with_url(UrlMatchView::Is(url));
    let by_id = TaskQueryView::with_id(id);
    let end = update_run::<E>(id, url, replies);
    let after = renamed(table, end, now);
    match replies.by_url {
        Some(existing) => {
            assert(selected(table, by_url).contains(existing.id));
        },
        None => {
            assert forall|other: int| #[trigger] table.contains_key(other) implies table[other].url
                != url by {
                assert(!selected(table, by_url).contains(other));
            }
            match replies.by_id {
                Some(task) => {
                    assert(selected(table, by_id).contains(task.id));
                    assert(after.dom() =~= table.dom());
                },
                None => {
                    assert(!selected(table, by_id).contains(id));
                },
            }
        },
    }
}

/// Tags are taken one by one and in order, and exactly those are left out that
/// could be neither found nor created.
pub proof fn law_known_tags_in_order<E>(
    a: Seq<Result<i64, E>>,
    b: Seq<Result<i64, E>>,
    tag: i64,
    e: E,
)
    ensures
        known_tags(a + b) == known_tags(a) + known_tags(b),
        known_tags(seq![Ok::<i64, E>(tag)]) == seq![tag],
        known_tags(seq![Err::<i64, E>(e)]).len() == 0,
    decreases b.len(),
{
    let found = seq![Ok::<i64, E>(tag)];
    let lost = seq![Err::<i64, E>(e)];
    assert(found.drop_last() =~= Seq::empty());
    assert(lost.drop_last() =~= Seq::empty());
    assert(known_tags(found.drop_last()) =~= Seq::empty());
    assert(known_tags(found) =~= seq![tag]);
    assert(known_tags(lost) == known_tags(lost.drop_last()));
    if b.len() == 0 {
        assert(a + b =~= a);
        assert(known_tags(a) + known_tags(b) =~= known_tags(a));
    } else {
        law_known_tags_in_order(a, b.drop_last(), tag, e);
        assert((a + b).drop_last() =~= a + b.drop_last());
        assert((a + b).last() == b.last());
        assert(known_tags(a + b) =~= known_tags(a) + known_tags(b));
    }
}

} // verus!
