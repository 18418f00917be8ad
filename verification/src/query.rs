//! What the database is asked: which tasks are meant, and the statements that
//! are written out as text.
use vstd::prelude::*;

use crate::settings::UserSettings;
use crate::task::{CrawlStatus, CrawlType, ModelView};
use crate::time::Timestamp;

verus! {

/// What is asked of the URL of a task.
#[derive(Debug)]
pub enum UrlMatch {
    Any,
    /// The URL is this one.
    Is(String),
    /// The URL begins with this text, as the operator `LIKE` sees it.
    StartsWith(String),
    /// The URL matches this pattern of the operator `LIKE`.
    Like(String),
}

/// The contents of a `UrlMatch`.
pub enum UrlMatchView {
    Any,
    Is(Seq<char>),
    StartsWith(Seq<char>),
    Like(Seq<char>),
}

impl View for UrlMatch {
    type V = UrlMatchView;

    open spec fn view(&self) -> UrlMatchView {
        match self {
            UrlMatch::Any => UrlMatchView::Any,
            UrlMatch::Is(url) => UrlMatchView::Is(url@),
            UrlMatch::StartsWith(prefix) => UrlMatchView::StartsWith(prefix@),
            UrlMatch::Like(pattern) => UrlMatchView::Like(pattern@),
        }
    }
}

/// Which tasks of the queue are meant. What is `None` is not asked about.
#[derive(Debug)]
pub struct TaskQuery {
    pub id: Option<i64>,
    pub status: Option<CrawlStatus>,
    pub crawl_type: Option<CrawlType>,
    pub url: UrlMatch,
    /// The task that was updated least recently comes first.
    pub oldest_update_first: bool,
}

/// The contents of a `TaskQuery`.
pub struct TaskQueryView {
    pub id: Option<int>,
    pub status: Option<CrawlStatus>,
    pub crawl_type: Option<CrawlType>,
    pub url: UrlMatchView,
    pub oldest_update_first: bool,
}

impl View for TaskQuery {
    type V = TaskQueryView;

    open spec fn view(&self) -> TaskQueryView {
        TaskQueryView {
            id: match self.id {
                Some(id) => Some(id as int),
                None => None,
            },
            status: self.status,
            crawl_type: self.crawl_type,
            url: self.url@,
            oldest_update_first: self.oldest_update_first,
        }
    }
}

/// An ASCII letter in lower case; any other character as it is.
pub open spec fn ascii_lower(c: char) -> char {
    if 'A' <= c <= 'Z' {
        ((c as u32) + 32) as char
    } else {
        c
    }
}

/// SQLite's operator `LIKE`: `%` stands for any run of characters, `_` for any
/// one character, and ASCII letters match in either case.
pub open spec fn like(pattern: Seq<char>, text: Seq<char>) -> bool
    decreases pattern.len(), text.len(),
{
    if pattern.len() == 0 {
        text.len() == 0
    } else if pattern[0] == '%' {
        ||| like(pattern.drop_first(), text)
        ||| text.len() > 0 && like(pattern, text.drop_first())
    } else {
        &&& text.len() > 0
        &&& pattern[0] == '_' || ascii_lower(pattern[0]) == ascii_lower(text[0])
        &&& like(pattern.drop_first(), text.drop_first())
    }
}

impl UrlMatchView {
    /// Whether a URL is one that is asked for.
    pub open spec fn selects(self, url: Seq<char>) -> bool {
        match self {
            UrlMatchView::Any => true,
            UrlMatchView::Is(other) => url == other,
            UrlMatchView::StartsWith(prefix) => like(prefix.push('%'), url),
            UrlMatchView::Like(pattern) => like(pattern, url),
        }
    }
}

impl TaskQueryView {
    /// Every task.
    pub open spec fn every() -> TaskQueryView {
        TaskQueryView {
            id: None,
            status: None,
            crawl_type: None,
            url: UrlMatchView::Any,
            oldest_update_first: false,
        }
    }

    /// The task with this id.
    pub open spec fn with_id(id: int) -> TaskQueryView {
        TaskQueryView { id: Some(id), ..TaskQueryView::every() }
    }

    /// The tasks with this status.
    pub open spec fn with_status(status: CrawlStatus) -> TaskQueryView {
        TaskQueryView { status: Some(status), ..TaskQueryView::every() }
    }

    /// The tasks whose URL is asked for.
    pub open spec fn with_url(url: UrlMatchView) -> TaskQueryView {
        TaskQueryView { url, ..TaskQueryView::every() }
    }

    /// Whether a task is one that is asked for.
    pub open spec fn selects(self, task: ModelView) -> bool {
        &&& self.id matches Some(id) ==> task.id == id
        &&& self.status matches Some(status) ==> task.status == status
        &&& self.crawl_type matches Some(crawl_type) ==> task.crawl_type == crawl_type
        &&& self.url.selects(task.url)
    }
}

impl TaskQuery {
    /// The task with this id.
    pub fn with_id(id: i64) -> (query: TaskQuery)
        ensures
            query@ == TaskQueryView::with_id(id as int),
            query.id == Some(id) && query.status is None && query.crawl_type is None,
            query.url is Any && !query.oldest_update_first,
    {
        TaskQuery {
            id: Some(id),
            status: None,
            crawl_type: None,
            url: UrlMatch::Any,
            oldest_update_first: false,
        }
    }

    /// The tasks with this status.
    pub fn with_status(status: CrawlStatus) -> (query: TaskQuery)
        ensures
            query@ == TaskQueryView::with_status(status),
            query.id is None && query.status == Some(status) && query.crawl_type is None,
            query.url is Any && !query.oldest_update_first,
    {
        TaskQuery {
            id: None,
            status: Some(status),
            crawl_type: None,
            url: UrlMatch::Any,
            oldest_update_first: false,
        }
    }

    /// The tasks whose URL is asked for.
    pub fn with_url(url: UrlMatch) -> (query: TaskQuery)
        ensures
            query@ == TaskQueryView::with_url(url@),
            query.id is None && query.status is None && query.crawl_type is None,
            query.url == url && !query.oldest_update_first,
    {
        TaskQuery { id: None, status: None, crawl_type: None, url, oldest_update_first: false }
    }
}

/// A pattern of plain characters and a `%` behind them is matched by the texts
/// that begin with those characters, in either case.
pub proof fn law_prefix_pattern(prefix: Seq<char>, text: Seq<char>)
    requires
        !prefix.contains('%'),
        !prefix.contains('_'),
    ensures
        like(prefix.push('%'), text) <==> {
            &&& prefix.len() <= text.len()
            &&& forall|i: int|
                0 <= i < prefix.len() ==> ascii_lower(#[trigger] prefix[i]) == ascii_lower(text[i])
        },
    decreases prefix.len(), text.len(),
{
    let pattern = prefix.push('%');
    if prefix.len() == 0 {
        lemma_percent_matches_all(text);
        assert(pattern =~= seq!['%']);
    } else {
        assert(prefix.contains(prefix[0]));
        assert(pattern.drop_first() =~= prefix.drop_first().push('%'));
        assert forall|c: char| prefix.drop_first().contains(c) implies prefix.contains(c) by {
            let k = choose|k: int| 0 <= k < prefix.drop_first().len() && prefix.drop_first()[k] == c;
            assert(prefix[k + 1] == c);
        }
        if text.len() > 0 {
            law_prefix_pattern(prefix.drop_first(), text.drop_first());
            if forall|i: int|
                0 <= i < prefix.drop_first().len() ==> ascii_lower(#[trigger] prefix.drop_first()[i])
                    == ascii_lower(text.drop_first()[i]) {
                if prefix.len() <= text.len() && ascii_lower(prefix[0]) == ascii_lower(text[0]) {
                    assert forall|i: int| 0 <= i < prefix.len() implies ascii_lower(
                        #[trigger] prefix[i],
                    ) == ascii_lower(text[i]) by {
                        if i > 0 {
                            assert(prefix.drop_first()[i - 1] == prefix[i]);
                        }
                    }
                }
            } else {
                let k = choose|k: int|
                    0 <= k < prefix.drop_first().len() && ascii_lower(prefix.drop_first()[k])
                        != ascii_lower(text.drop_first()[k]);
                if prefix.len() <= text.len() {
                    assert(ascii_lower(prefix[k + 1]) != ascii_lower(text[k + 1]));
                }
            }
        }
    }
}

proof fn lemma_percent_matches_all(text: Seq<char>)
    ensures
        like(seq!['%'], text),
    decreases text.len(),
{
    if text.len() > 0 {
        lemma_percent_matches_all(text.drop_first());
    } else {
        assert(seq!['%'].drop_first() =~= Seq::<char>::empty());
        assert(like(Seq::<char>::empty(), text));
    }
}

/// A statement as text, with the values of its placeholders in order.
#[derive(Debug)]
pub struct SqlStatement {
    pub sql: String,
    pub values: Vec<u32>,
}

/// Counts the tasks of each domain by their status.
pub const QUEUE_STATS_SQL: &'static str =
    "SELECT count(*) as count, domain, status FROM crawl_queue GROUP BY domain, status";

/// Selects the queued tasks of the domains that are below both of their
/// limits, the one that was updated least recently first.
pub const DEQUEUE_SQL: &'static str = "WITH
indexed AS (
    SELECT
        domain,
        count(*) as count
    FROM indexed_document
    GROUP BY domain
),
inflight AS (
    SELECT
        domain,
        count(*) as count
    FROM crawl_queue
    WHERE status = \"Processing\"
    GROUP BY domain
)
SELECT
    cq.*
FROM crawl_queue cq
LEFT JOIN indexed ON indexed.domain = cq.domain
LEFT JOIN inflight ON inflight.domain = cq.domain
WHERE
    COALESCE(indexed.count, 0) < ? AND
    COALESCE(inflight.count, 0) < ? AND
    status = \"Queued\"
ORDER BY
    cq.updated_at ASC";

/// The statement that counts the tasks of each domain by their status.
pub fn queue_stats() -> (statement: SqlStatement)
    ensures
        statement.sql@ == QUEUE_STATS_SQL@,
        statement.values@.len() == 0,
{
    SqlStatement { sql: QUEUE_STATS_SQL.to_owned(), values: Vec::new() }
}

/// The statement that selects the next task, under the limits of the settings.
pub fn gen_dequeue_sql(user_settings: &UserSettings) -> (statement: SqlStatement)
    ensures
        statement.sql@ == DEQUEUE_SQL@,
        statement.values@ == seq![
            user_settings.domain_crawl_limit.value(),
            user_settings.inflight_domain_limit.value(),
        ],
{
    let mut values: Vec<u32> = Vec::new();
    values.push(user_settings.domain_crawl_limit.value());
    values.push(user_settings.inflight_domain_limit.value());
    SqlStatement { sql: DEQUEUE_SQL.to_owned(), values }
}

/// A change of the status of all tasks that are meant, and its date.
#[derive(Debug)]
pub struct StatusUpdate {
    pub filter: TaskQuery,
    pub status: CrawlStatus,
    pub updated_at: Timestamp,
}

/// Queues every task again that was in flight. They are updated `now`.
pub fn reset_processing(now: Timestamp) -> (update: StatusUpdate)
    ensures
        update.filter@ == TaskQueryView::with_status(CrawlStatus::Processing),
        update.filter.id is None && update.filter.status == Some(CrawlStatus::Processing),
        update.filter.crawl_type is None && update.filter.url is Any,
        update.status == CrawlStatus::Queued,
        update.updated_at@ == now@,
{
    StatusUpdate {
        filter: TaskQuery::with_status(CrawlStatus::Processing),
        status: CrawlStatus::Queued,
        updated_at: now,
    }
}

/// The tasks that have a status.
pub fn num_queued(status: CrawlStatus) -> (counted: TaskQuery)
    ensures
        counted@ == TaskQueryView::with_status(status),
        counted.id is None && counted.status == Some(status) && counted.crawl_type is None,
        counted.url is Any,
{
    TaskQuery::with_status(status)
}

/// How many tasks do we have in progress?
pub fn num_tasks_in_progress() -> (counted: TaskQuery)
    ensures
        counted@ == TaskQueryView::with_status(CrawlStatus::Processing),
        counted.id is None && counted.status == Some(CrawlStatus::Processing),
        counted.crawl_type is None && counted.url is Any,
{
    TaskQuery::with_status(CrawlStatus::Processing)
}

/// The tasks to remove from the crawl queue: those that match `rule`. Rule is
/// expected to be a SQL like statement.
pub fn remove_by_rule(rule: &str) -> (removed: TaskQuery)
    ensures
        removed@ == TaskQueryView::with_url(UrlMatchView::Like(rule@)),
        removed.id is None && removed.status is None && removed.crawl_type is None,
        removed.url matches UrlMatch::Like(pattern) && pattern@ == rule@,
{
    TaskQuery::with_url(UrlMatch::Like(rule.to_owned()))
}

/// The view of a query asks what the query asks.
pub proof fn law_query_view(query: TaskQuery)
    ensures
        query@.status == query.status && query@.crawl_type == query.crawl_type,
        query@.oldest_update_first == query.oldest_update_first,
        query@.id is Some <==> query.id is Some,
        query.id matches Some(id) ==> query@.id == Some(id as int),
        query.url is Any ==> query@.url == UrlMatchView::Any,
        query.url matches UrlMatch::Is(url) ==> query@.url == UrlMatchView::Is(url@),
        query.url matches UrlMatch::StartsWith(text) ==> query@.url == UrlMatchView::StartsWith(
            text@,
        ),
        query.url matches UrlMatch::Like(pattern) ==> query@.url == UrlMatchView::Like(pattern@),
{
}

/// What each kind of query selects: the task with the id, the tasks with the
/// status, the tasks with the URL, and the tasks whose URL matches the pattern.
pub proof fn law_queries_select(
    task: ModelView,
    id: int,
    status: CrawlStatus,
    text: Seq<char>,
)
    ensures
        TaskQueryView::with_id(id).selects(task) <==> task.id == id,
        TaskQueryView::with_status(status).selects(task) <==> task.status == status,
        TaskQueryView::with_url(UrlMatchView::Is(text)).selects(task) <==> task.url == text,
        TaskQueryView::with_url(UrlMatchView::Like(text)).selects(task) <==> like(text, task.url),
{
}

} // verus!
