//! The tasks of the crawl queue and the columns that are written of them.
use vstd::prelude::*;

use crate::text::opt_text;
use crate::time::Timestamp;

verus! {

/// At which stage a task failed.
#[derive(Clone, Copy, Debug, PartialEq, Eq, Structural)]
pub enum TaskErrorType {
    Collect,
    Fetch,
    Parse,
    Tag,
}

/// Why a task failed.
#[derive(Clone, Debug)]
pub struct TaskError {
    pub error_type: TaskErrorType,
    pub msg: String,
}

/// The contents of a `TaskError`.
pub struct TaskErrorView {
    pub error_type: TaskErrorType,
    pub msg: Seq<char>,
}

impl View for TaskError {
    type V = TaskErrorView;

    open spec fn view(&self) -> TaskErrorView {
        TaskErrorView { error_type: self.error_type, msg: self.msg@ }
    }
}

/// How far a task has come.
#[derive(Clone, Copy, Debug, PartialEq, Eq, Structural)]
pub enum CrawlStatus {
    Queued,
    Processing,
    Completed,
    Failed,
}

impl CrawlStatus {
    /// The status as the database stores it.
    pub open spec fn text(self) -> Seq<char> {
        match self {
            CrawlStatus::Queued => "Queued"@,
            CrawlStatus::Processing => "Processing"@,
            CrawlStatus::Completed => "Completed"@,
            CrawlStatus::Failed => "Failed"@,
        }
    }
}

/// What put a task into the queue.
#[derive(Clone, Copy, Debug, PartialEq, Eq, Structural)]
pub enum CrawlType {
    Api,
    Bootstrap,
    Normal,
}

impl Default for CrawlType {
    fn default() -> (kind: CrawlType)
        ensures
            kind == CrawlType::Normal,
    {
        CrawlType::Normal
    }
}

/// What the rows of the queue are related to.
#[derive(Clone, Copy, Debug, PartialEq, Eq, Structural)]
pub enum Relation {
    Tag,
}

/// Why a URL was not added to the crawl queue.
#[derive(Clone, Copy, Debug, PartialEq, Eq, Structural)]
pub enum SkipReason {
    Invalid,
    Blocked,
    Duplicate,
}

/// How many tasks of a domain have a status.
#[derive(Clone, Debug)]
pub struct QueueCountByStatus {
    pub count: i64,
    pub domain: String,
    pub status: String,
}

/// The contents of a `QueueCountByStatus`.
pub struct QueueCountView {
    pub count: int,
    pub domain: Seq<char>,
    pub status: Seq<char>,
}

impl View for QueueCountByStatus {
    type V = QueueCountView;

    open spec fn view(&self) -> QueueCountView {
        QueueCountView { count: self.count as int, domain: self.domain@, status: self.status@ }
    }
}

/// The label and the value of a tag.
pub type TagPair = (String, String);

/// A row of the crawl queue.
#[derive(Clone, Debug)]
pub struct Model {
    pub id: i64,
    /// Domain/host of the URL to be crawled.
    pub domain: String,
    /// URL to crawl.
    pub url: String,
    /// Task status.
    pub status: CrawlStatus,
    /// If this failed, the reason for the failure.
    pub error: Option<TaskError>,
    /// Data that we want to keep around about the task.
    pub data: Option<String>,
    /// Number of retries so far.
    pub num_retries: u8,
    /// Crawl type.
    pub crawl_type: CrawlType,
    /// When this was first added to the crawl queue.
    pub created_at: Timestamp,
    /// When the task was last updated.
    pub updated_at: Timestamp,
    pub pipeline: Option<String>,
}

/// The contents of a `Model`, with instants in nanoseconds.
pub struct ModelView {
    pub id: int,
    pub domain: Seq<char>,
    pub url: Seq<char>,
    pub status: CrawlStatus,
    pub error: Option<TaskErrorView>,
    pub data: Option<Seq<char>>,
    pub num_retries: int,
    pub crawl_type: CrawlType,
    pub created_at: int,
    pub updated_at: int,
    pub pipeline: Option<Seq<char>>,
}

impl View for Model {
    type V = ModelView;

    open spec fn view(&self) -> ModelView {
        ModelView {
            id: self.id as int,
            domain: self.domain@,
            url: self.url@,
            status: self.status,
            error: match self.error {
                Some(e) => Some(e@),
                None => None,
            },
            data: opt_text(self.data),
            num_retries: self.num_retries as int,
            crawl_type: self.crawl_type,
            created_at: self.created_at@,
            updated_at: self.updated_at@,
            pipeline: opt_text(self.pipeline),
        }
    }
}

/// The contents of an optional task.
pub open spec fn opt_task(task: Option<Model>) -> Option<ModelView> {
    match task {
        Some(t) => Some(t@),
        None => None,
    }
}

/// The columns that are written of a task. A column that is `None` is left to
/// the database: an insert takes its default, an update keeps its value. In an
/// update `id` says which row is meant.
#[derive(Clone, Debug)]
pub struct ActiveModel {
    pub id: Option<i64>,
    pub domain: Option<String>,
    pub url: Option<String>,
    pub status: Option<CrawlStatus>,
    pub num_retries: Option<u8>,
    pub crawl_type: Option<CrawlType>,
    pub created_at: Option<Timestamp>,
    pub updated_at: Option<Timestamp>,
    pub pipeline: Option<Option<String>>,
}

/// The contents of an `ActiveModel`.
pub struct ActiveModelView {
    pub id: Option<int>,
    pub domain: Option<Seq<char>>,
    pub url: Option<Seq<char>>,
    pub status: Option<CrawlStatus>,
    pub num_retries: Option<int>,
    pub crawl_type: Option<CrawlType>,
    pub created_at: Option<int>,
    pub updated_at: Option<int>,
    pub pipeline: Option<Option<Seq<char>>>,
}

/// The nanoseconds of an optional instant.
pub open spec fn opt_instant(instant: Option<Timestamp>) -> Option<int> {
    match instant {
        Some(t) => Some(t@),
        None => None,
    }
}

impl View for ActiveModel {
    type V = ActiveModelView;

    open spec fn view(&self) -> ActiveModelView {
        ActiveModelView {
            id: match self.id {
                Some(id) => Some(id as int),
                None => None,
            },
            domain: opt_text(self.domain),
            url: opt_text(self.url),
            status: self.status,
            num_retries: match self.num_retries {
                Some(n) => Some(n as int),
                None => None,
            },
            crawl_type: self.crawl_type,
            created_at: opt_instant(self.created_at),
            updated_at: opt_instant(self.updated_at),
            pipeline: match self.pipeline {
                Some(p) => Some(opt_text(p)),
                None => None,
            },
        }
    }
}

impl ActiveModelView {
    /// No column of the row `id` is written.
    pub open spec fn untouched(id: Option<int>) -> ActiveModelView {
        ActiveModelView {
            id,
            domain: None,
            url: None,
            status: None,
            num_retries: None,
            crawl_type: None,
            created_at: None,
            updated_at: None,
            pipeline: None,
        }
    }

    /// A task that is new at the instant `now`: queued, and of the normal type.
    pub open spec fn fresh(now: int) -> ActiveModelView {
        ActiveModelView {
            status: Some(CrawlStatus::Queued),
            crawl_type: Some(CrawlType::Normal),
            created_at: Some(now),
            updated_at: Some(now),
            ..ActiveModelView::untouched(None)
        }
    }

    /// Only the status of the row `id` is written.
    pub open spec fn only_status(id: int, status: CrawlStatus) -> ActiveModelView {
        ActiveModelView { status: Some(status), ..ActiveModelView::untouched(Some(id)) }
    }

    /// The columns that are written once the hook before every save has run.
    pub open spec fn stamped(self, insert: bool, now: int) -> ActiveModelView {
        if insert {
            self
        } else {
            ActiveModelView { updated_at: Some(now), ..self }
        }
    }
}

impl ActiveModel {
    /// A task that is new at the instant `now`.
    pub fn new(now: Timestamp) -> (task: ActiveModel)
        ensures
            task@ == ActiveModelView::fresh(now@),
            task.id is None && task.domain is None && task.url is None,
            task.status == Some(CrawlStatus::Queued),
            task.crawl_type == Some(CrawlType::Normal),
            task.num_retries is None && task.pipeline is None,
            task.created_at matches Some(created) && created@ == now@,
            task.updated_at matches Some(date) && date@ == now@,
    {
        ActiveModel {
            id: None,
            domain: None,
            url: None,
            status: Some(CrawlStatus::Queued),
            num_retries: None,
            crawl_type: Some(CrawlType::Normal),
            created_at: Some(now),
            updated_at: Some(now),
            pipeline: None,
        }
    }

    /// The row of `task`, with nothing to be written yet.
    pub fn of(task: &Model) -> (update: ActiveModel)
        ensures
            update@ == ActiveModelView::untouched(Some(task@.id)),
            update.id == Some(task.id),
            update.domain is None && update.url is None && update.status is None,
            update.num_retries is None && update.crawl_type is None && update.pipeline is None,
            update.created_at is None && update.updated_at is None,
    {
        ActiveModel {
            id: Some(task.id),
            domain: None,
            url: None,
            status: None,
            num_retries: None,
            crawl_type: None,
            created_at: None,
            updated_at: None,
            pipeline: None,
        }
    }

    /// Triggered before insert / update: an update is dated `now`.
    pub fn before_save(self, insert: bool, now: Timestamp) -> (task: ActiveModel)
        ensures
            task@ == self@.stamped(insert, now@),
            task.id == self.id && task.domain == self.domain && task.url == self.url,
            task.status == self.status && task.num_retries == self.num_retries,
            task.crawl_type == self.crawl_type && task.pipeline == self.pipeline,
            task.created_at == self.created_at,
            insert ==> task.updated_at == self.updated_at,
            !insert ==> (task.updated_at matches Some(date) && date@ == now@),
    {
        let mut task = self;
        if !insert {
            task.updated_at = Some(now);
        }
        task
    }
}

/// How URLs are added to the queue.
#[derive(Clone, Debug)]
pub struct EnqueueSettings {
    pub crawl_type: CrawlType,
    pub tags: Vec<TagPair>,
    /// Add URLs that no lens allows.
    pub force_allow: bool,
    /// Queue URLs again that were crawled before.
    pub is_recrawl: bool,
}

impl Default for EnqueueSettings {
    fn default() -> (settings: EnqueueSettings)
        ensures
            settings.crawl_type == CrawlType::Normal,
            settings.tags@.len() == 0,
            !settings.force_allow,
            !settings.is_recrawl,
    {
        EnqueueSettings {
            crawl_type: CrawlType::Normal,
            tags: Vec::new(),
            force_allow: false,
            is_recrawl: false,
        }
    }
}

/// The view of a task has all of its columns as they are.
pub proof fn law_task_view(task: Model)
    ensures
        task@.id == task.id && task@.domain == task.domain@ && task@.url == task.url@,
        task@.status == task.status && task@.crawl_type == task.crawl_type,
        task@.num_retries == task.num_retries,
        task@.created_at == task.created_at@ && task@.updated_at == task.updated_at@,
        task@.data is Some <==> task.data is Some,
        task.data matches Some(text) ==> task@.data == Some(text@),
        task@.pipeline is Some <==> task.pipeline is Some,
        task.pipeline matches Some(text) ==> task@.pipeline == Some(text@),
        task@.error is Some <==> task.error is Some,
        task.error matches Some(e) ==> task@.error->0.error_type == e.error_type
            && task@.error->0.msg == e.msg@,
{
}

/// The view of columns to be written has each of them as it is, and has exactly
/// those that are set.
pub proof fn law_columns_view(row: ActiveModel)
    ensures
        row@.status == row.status && row@.crawl_type == row.crawl_type,
        row@.id is Some <==> row.id is Some,
        row.id matches Some(id) ==> row@.id == Some(id as int),
        row@.domain is Some <==> row.domain is Some,
        row.domain matches Some(text) ==> row@.domain == Some(text@),
        row@.url is Some <==> row.url is Some,
        row.url matches Some(text) ==> row@.url == Some(text@),
        row@.num_retries is Some <==> row.num_retries is Some,
        row.num_retries matches Some(n) ==> row@.num_retries == Some(n as int),
        row@.created_at is Some <==> row.created_at is Some,
        row.created_at matches Some(date) ==> row@.created_at == Some(date@),
        row@.updated_at is Some <==> row.updated_at is Some,
        row.updated_at matches Some(date) ==> row@.updated_at == Some(date@),
        row@.pipeline is Some <==> row.pipeline is Some,
        row.pipeline matches Some(None) ==> row@.pipeline == Some(None::<Seq<char>>),
        row.pipeline matches Some(Some(text)) ==> row@.pipeline == Some(Some(text@)),
{
}

} // verus!
