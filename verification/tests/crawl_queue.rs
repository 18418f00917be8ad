//! Runs the queue against a small database in memory.
use sea_orm::{DbBackend, Statement};
use spyglass::adding::{enqueue_step, EnqueueAction, EnqueueEvent};
use spyglass::dequeue::{
    dequeue, dequeue_recrawl, DequeueAction, DequeueEvent, RecrawlAction, RecrawlEvent,
};
use spyglass::enqueue::{enqueue_all, InsertBatch, OnConflict};
use spyglass::filter::filter_urls;
use spyglass::lifecycle::{
    mark_done, mark_failed, update_or_remove_task, MarkDoneAction, MarkDoneEvent, MarkFailedAction,
    MarkFailedEvent, UpdateTaskAction, UpdateTaskEvent,
};
use spyglass::query::{
    gen_dequeue_sql, num_queued, num_tasks_in_progress, remove_by_rule, reset_processing,
    SqlStatement, TaskQuery, UrlMatch, DEQUEUE_SQL,
};
use spyglass::rules::create_ruleset_from_lens;
use spyglass::settings::{LensConfig, LensRule, Limit, UserSettings};
use spyglass::task::{
    ActiveModel, CrawlStatus, CrawlType, EnqueueSettings, Model, QueueCountByStatus, TagPair,
};
use spyglass::time::Timestamp;

const DAY: i64 = 86_400;

fn at(seconds: i64) -> Timestamp {
    Timestamp::new(seconds, 0).unwrap()
}

fn default_settings() -> UserSettings {
    UserSettings {
        block_list: vec!["^(http://|https://)web\\.archive\\.org.*".to_string()],
        crawl_external_links: false,
        domain_crawl_limit: Limit::Finite(500_000),
        inflight_crawl_limit: Limit::Finite(10),
        inflight_domain_limit: Limit::Finite(2),
    }
}

fn domain_pattern(domain: &str) -> String {
    format!("^(http://|https://){}.*", regex::escape(domain))
}

fn lens_for(domain: &str) -> LensConfig {
    LensConfig { domains: vec![domain_pattern(domain)], urls: Vec::new(), rules: Vec::new() }
}

fn like(pattern: &[char], text: &[char]) -> bool {
    match pattern.first() {
        None => text.is_empty(),
        Some('%') => {
            like(&pattern[1..], text) || (!text.is_empty() && like(pattern, &text[1..]))
        }
        Some(c) => {
            !text.is_empty()
                && (*c == '_' || c.eq_ignore_ascii_case(&text[0]))
                && like(&pattern[1..], &text[1..])
        }
    }
}

fn like_text(pattern: &str, text: &str) -> bool {
    let pattern: Vec<char> = pattern.chars().collect();
    let text: Vec<char> = text.chars().collect();
    like(&pattern, &text)
}

#[derive(Default)]
struct Db {
    rows: Vec<Model>,
    /// Domain and URL of each document that is indexed.
    indexed: Vec<(String, String)>,
    tags: Vec<(i64, Vec<TagPair>)>,
    /// The number of the lookup that fails, and of the insert.
    failing_lookup: Option<usize>,
    failing_insert: Option<usize>,
    next_id: i64,
    clock: i64,
}

impl Db {
    fn selects(query: &TaskQuery, row: &Model) -> bool {
        query.id.map_or(true, |id| row.id == id)
            && query.status.map_or(true, |status| row.status == status)
            && query.crawl_type.map_or(true, |kind| row.crawl_type == kind)
            && match &query.url {
                UrlMatch::Any => true,
                UrlMatch::Is(url) => row.url == *url,
                UrlMatch::StartsWith(prefix) => like_text(&format!("{}%", prefix), &row.url),
                UrlMatch::Like(pattern) => like_text(pattern, &row.url),
            }
    }

    fn all(&self, query: &TaskQuery) -> Vec<Model> {
        let mut found: Vec<Model> =
            self.rows.iter().filter(|row| Db::selects(query, row)).cloned().collect();
        if query.oldest_update_first {
            found.sort_by_key(|row| row.updated_at.parts());
        }
        found
    }

    fn one(&self, query: &TaskQuery) -> Option<Model> {
        self.all(query).into_iter().next()
    }

    fn run(&self, statement: &SqlStatement) -> Option<Model> {
        assert_eq!(statement.sql, DEQUEUE_SQL);
        let mut ready: Vec<Model> = self
            .rows
            .iter()
            .filter(|row| {
                let indexed = self.indexed.iter().filter(|doc| doc.0 == row.domain).count();
                let inflight = self
                    .rows
                    .iter()
                    .filter(|r| r.domain == row.domain && r.status == CrawlStatus::Processing)
                    .count();
                row.status == CrawlStatus::Queued
                    && indexed < statement.values[0] as usize
                    && inflight < statement.values[1] as usize
            })
            .cloned()
            .collect();
        ready.sort_by_key(|row| row.updated_at.parts());
        ready.into_iter().next()
    }

    fn write(row: &mut Model, columns: &ActiveModel) {
        if let Some(domain) = &columns.domain {
            row.domain = domain.clone();
        }
        if let Some(url) = &columns.url {
            row.url = url.clone();
        }
        if let Some(status) = columns.status {
            row.status = status;
        }
        if let Some(n) = columns.num_retries {
            row.num_retries = n;
        }
        if let Some(kind) = columns.crawl_type {
            row.crawl_type = kind;
        }
        if let Some(t) = columns.created_at {
            row.created_at = t;
        }
        if let Some(t) = columns.updated_at {
            row.updated_at = t;
        }
        if let Some(pipeline) = &columns.pipeline {
            row.pipeline = pipeline.clone();
        }
    }

    fn update(&mut self, columns: ActiveModel) -> Option<Model> {
        let columns = columns.before_save(false, at(self.clock));
        let row = self.rows.iter_mut().find(|row| Some(row.id) == columns.id)?;
        Db::write(row, &columns);
        Some(row.clone())
    }

    fn insert_row(&mut self, columns: &ActiveModel) -> i64 {
        self.next_id += 1;
        let mut row = Model {
            id: self.next_id,
            domain: String::new(),
            url: String::new(),
            status: CrawlStatus::Queued,
            error: None,
            data: None,
            num_retries: 0,
            crawl_type: CrawlType::Normal,
            created_at: at(0),
            updated_at: at(0),
            pipeline: None,
        };
        Db::write(&mut row, columns);
        self.rows.push(row);
        self.next_id
    }

    fn insert(&mut self, batch: &InsertBatch) {
        for columns in &batch.rows {
            match self.rows.iter_mut().find(|row| Some(&row.url) == columns.url.as_ref()) {
                Some(row) => match batch.on_conflict {
                    OnConflict::DoNothing => {}
                    OnConflict::UpdateStatus => {
                        row.status = columns.status.unwrap();
                        row.updated_at = columns.updated_at.unwrap();
                    }
                },
                None => {
                    self.insert_row(columns);
                }
            }
        }
    }

    fn add(
        &mut self,
        domain: &str,
        url: &str,
        status: CrawlStatus,
        crawl_type: CrawlType,
        updated: i64,
    ) -> i64 {
        let mut columns = ActiveModel::new(at(updated));
        columns.domain = Some(domain.to_string());
        columns.url = Some(url.to_string());
        columns.status = Some(status);
        columns.crawl_type = Some(crawl_type);
        self.insert_row(&columns)
    }

    fn enqueue(
        &mut self,
        urls: &[String],
        lenses: &[LensConfig],
        settings: &UserSettings,
        overrides: &EnqueueSettings,
    ) {
        self.try_enqueue(urls, lenses, settings, overrides).unwrap();
    }

    fn try_enqueue(
        &mut self,
        urls: &[String],
        lenses: &[LensConfig],
        settings: &UserSettings,
        overrides: &EnqueueSettings,
    ) -> Result<(), String> {
        let plan = enqueue_all(urls, lenses, settings, overrides).unwrap();
        let (mut lookups, mut inserts): (usize, usize) = (0, 0);
        let mut event: EnqueueEvent<String> = EnqueueEvent::Start(plan);
        loop {
            event = match enqueue_step(event, overrides, &None, at(self.clock)) {
                EnqueueAction::LookUp(urls, plan) => {
                    lookups += 1;
                    if self.failing_lookup == Some(lookups) {
                        EnqueueEvent::LookupFailed("lookup failed".to_string())
                    } else {
                        let found = self
                            .indexed
                            .iter()
                            .filter(|doc| urls.contains(&doc.1))
                            .map(|doc| doc.1.clone())
                            .collect();
                        EnqueueEvent::LookedUp(found, plan)
                    }
                }
                EnqueueAction::Insert(batch, left) => {
                    inserts += 1;
                    if self.failing_insert == Some(inserts) {
                        EnqueueEvent::InsertFailed(left)
                    } else {
                        self.insert(&batch);
                        EnqueueEvent::Inserted(left)
                    }
                }
                EnqueueAction::Return => return Ok(()),
                EnqueueAction::Hostless(e) => return Err(e.url),
                EnqueueAction::Fail(e) => return Err(e),
            };
        }
    }

    fn dequeue(&mut self, settings: &UserSettings) -> Option<Model> {
        let mut event: DequeueEvent<String> = DequeueEvent::Start;
        loop {
            event = match dequeue(settings, event) {
                DequeueAction::Count(query) => {
                    DequeueEvent::InProgress(self.all(&query).len() as u64)
                }
                DequeueAction::Find(query) => DequeueEvent::Bootstrap(self.one(&query)),
                DequeueAction::Select(statement) => DequeueEvent::Selected(self.run(&statement)),
                DequeueAction::Update(columns) => match self.update(columns) {
                    Some(task) => DequeueEvent::Updated(task),
                    None => DequeueEvent::UpdateFailed,
                },
                DequeueAction::Return(task) => return task,
                DequeueAction::Fail(e) => panic!("{}", e),
            };
        }
    }

    fn dequeue_recrawl(&mut self, settings: &UserSettings) -> Option<Model> {
        let mut event: RecrawlEvent<String> = RecrawlEvent::Start;
        loop {
            event = match dequeue_recrawl(settings, event) {
                RecrawlAction::Count(query) => {
                    RecrawlEvent::InProgress(self.all(&query).len() as u64)
                }
                RecrawlAction::Find(query) => {
                    RecrawlEvent::Found(self.one(&query), at(self.clock))
                }
                RecrawlAction::Update(columns) => match self.update(columns) {
                    Some(task) => RecrawlEvent::Updated(task),
                    None => RecrawlEvent::UpdateFailed,
                },
                RecrawlAction::Return(task) => return task,
                RecrawlAction::Fail(e) => panic!("{}", e),
            };
        }
    }

    fn mark_failed(&mut self, id: i64, retry: bool) {
        let mut event = MarkFailedEvent::Start;
        loop {
            event = match mark_failed(id, retry, event) {
                MarkFailedAction::Find(query) => MarkFailedEvent::Found(self.one(&query)),
                MarkFailedAction::Update(columns) => {
                    let _ = self.update(columns);
                    MarkFailedEvent::Updated
                }
                MarkFailedAction::Return => return,
            };
        }
    }

    fn mark_done(&mut self, id: i64, tags: Option<Vec<TagPair>>) -> Option<Model> {
        let mut event = MarkDoneEvent::Start;
        loop {
            event = match mark_done(id, tags.clone(), event) {
                MarkDoneAction::Find(query) => MarkDoneEvent::Found(self.one(&query)),
                MarkDoneAction::Tag(row, tags) => {
                    self.tags.push((row.id.unwrap(), tags));
                    MarkDoneEvent::Tagged(row)
                }
                MarkDoneAction::Update(columns) => MarkDoneEvent::Updated(self.update(columns)),
                MarkDoneAction::Return(task) => return task,
            };
        }
    }

    fn update_or_remove(&mut self, id: i64, url: &str) -> Result<Model, String> {
        let mut event: UpdateTaskEvent<String> = UpdateTaskEvent::Start;
        loop {
            event = match update_or_remove_task(id, url, event) {
                UpdateTaskAction::FindByUrl(query) => UpdateTaskEvent::ByUrl(self.one(&query)),
                UpdateTaskAction::FindById(query) => UpdateTaskEvent::ById(self.one(&query)),
                UpdateTaskAction::Delete(gone, task) => {
                    self.rows.retain(|row| row.id != gone);
                    UpdateTaskEvent::Written(task)
                }
                UpdateTaskAction::Save(columns, task) => {
                    self.update(columns).unwrap();
                    UpdateTaskEvent::Written(task)
                }
                UpdateTaskAction::Return(task) => return Ok(task),
                UpdateTaskAction::NotFound => {
                    return Err(spyglass::lifecycle::TASK_NOT_FOUND.to_string())
                }
                UpdateTaskAction::Fail(e) => return Err(e),
            };
        }
    }

    fn status(&self, id: i64) -> CrawlStatus {
        self.rows.iter().find(|row| row.id == id).unwrap().status
    }
}

#[test]
fn test_insert() {
    let mut db = Db::default();
    let url = "oldschool.runescape.wiki/";
    let mut crawl = ActiveModel::new(at(0));
    crawl.domain = Some("oldschool.runescape.wiki".to_string());
    crawl.url = Some(url.to_owned());
    db.insert_row(&crawl);

    let query = db.one(&TaskQuery::with_url(UrlMatch::Is(url.to_string())));
    assert!(query.is_some());
    let res = query.unwrap();
    assert_eq!(res.url, url);
    assert_eq!(res.status, CrawlStatus::Queued);
    assert_eq!(res.crawl_type, CrawlType::Normal);
}

#[test]
fn test_priority_sql() {
    let settings = default_settings();
    let query = gen_dequeue_sql(&settings);
    let sql = Statement::from_sql_and_values(
        DbBackend::Sqlite,
        &query.sql,
        query.values.iter().map(|value| (*value).into()),
    );
    assert_eq!(
        sql.to_string(),
        "WITH\nindexed AS (\n    SELECT\n        domain,\n        count(*) as count\n    FROM indexed_document\n    GROUP BY domain\n),\ninflight AS (\n    SELECT\n        domain,\n        count(*) as count\n    FROM crawl_queue\n    WHERE status = \"Processing\"\n    GROUP BY domain\n)\nSELECT\n    cq.*\nFROM crawl_queue cq\nLEFT JOIN indexed ON indexed.domain = cq.domain\nLEFT JOIN inflight ON inflight.domain = cq.domain\nWHERE\n    COALESCE(indexed.count, 0) < 500000 AND\n    COALESCE(inflight.count, 0) < 2 AND\n    status = \"Queued\"\nORDER BY\n    cq.updated_at ASC"
    );
}

#[test]
fn test_enqueue() {
    let settings = default_settings();
    let mut db = Db::default();
    let url: Vec<String> = vec!["https://oldschool.runescape.wiki/".into()];
    let lens = lens_for("oldschool.runescape.wiki");

    db.enqueue(&url, &[lens], &settings, &EnqueueSettings::default());

    let crawl = db.all(&TaskQuery::with_url(UrlMatch::Is(url[0].to_string())));
    assert_eq!(crawl.len(), 1);
    assert_eq!(crawl[0].domain, "oldschool.runescape.wiki");
    assert_eq!(crawl[0].status, CrawlStatus::Queued);
}

#[test]
fn test_enqueue_with_recrawl() {
    let settings = default_settings();
    let mut db = Db { clock: 42, ..Db::default() };
    let url = "https://oldschool.runescape.wiki/".to_owned();
    db.add(
        "oldschool.runescape.wiki",
        &url,
        CrawlStatus::Completed,
        CrawlType::Bootstrap,
        0,
    );

    let overrides =
        EnqueueSettings { force_allow: true, is_recrawl: true, ..EnqueueSettings::default() };

    let all = db.all(&num_queued(CrawlStatus::Completed));
    assert_eq!(all.len(), 1);

    db.enqueue(&[url], &[], &settings, &overrides);

    let res = db.all(&num_queued(CrawlStatus::Queued));
    assert_eq!(res.len(), 1);
    // Only the status and the date of the update are taken over.
    assert_eq!(res[0].updated_at, at(42));
    assert_eq!(res[0].created_at, at(0));
    assert_eq!(res[0].crawl_type, CrawlType::Bootstrap);
    assert_eq!(db.rows.len(), 1);
}

#[test]
fn test_enqueue_with_rules() {
    let settings = default_settings();
    let mut db = Db::default();
    let url: Vec<String> =
        vec!["https://oldschool.runescape.wiki/w/Worn_Equipment?veaction=edit".into()];
    let lens = LensConfig {
        rules: vec![LensRule::SkipURL(
            "https://oldschool\\.runescape\\.wiki/.*veaction=.*".into(),
        )],
        ..lens_for("oldschool.runescape.wiki")
    };

    db.enqueue(&url, &[lens], &settings, &EnqueueSettings::default());

    let crawl = db.all(&TaskQuery::with_url(UrlMatch::Is(url[0].to_string())));
    assert_eq!(crawl.len(), 0);
}

#[test]
fn test_dequeue() {
    let settings = default_settings();
    let mut db = Db::default();
    let url: Vec<String> = vec!["https://oldschool.runescape.wiki/".into()];
    let lens = lens_for("oldschool.runescape.wiki");

    db.enqueue(&url, &[lens], &settings, &EnqueueSettings::default());
    let queue = db.dequeue(&settings);

    assert!(queue.is_some());
    let task = queue.unwrap();
    assert_eq!(task.url, url[0]);
    assert_eq!(task.status, CrawlStatus::Processing);
    assert_eq!(db.status(task.id), CrawlStatus::Processing);
}

#[test]
fn test_dequeue_with_limit() {
    let settings =
        UserSettings { domain_crawl_limit: Limit::Finite(2), ..default_settings() };
    let mut db = Db::default();
    let url: Vec<String> = vec!["https://oldschool.runescape.wiki/".into()];
    let lens = lens_for("oldschool.runescape.wiki");

    db.enqueue(&url, &[lens], &settings, &EnqueueSettings::default());
    db.indexed.push(("oldschool.runescape.wiki".to_string(), url[0].clone()));
    let queue = db.dequeue(&settings);
    assert!(queue.is_some());

    let settings =
        UserSettings { domain_crawl_limit: Limit::Finite(1), ..default_settings() };
    let queue = db.dequeue(&settings);
    assert!(queue.is_none());
}

#[test]
fn test_remove_by_rule() {
    let settings = default_settings();
    let mut db = Db::default();
    let overrides = EnqueueSettings::default();
    let lens = lens_for("en.wikipedia.com");
    let urls: Vec<String> = vec![
        "https://en.wikipedia.com/".into(),
        "https://en.wikipedia.org/wiki/Rust_(programming_language)".into(),
        "https://en.wikipedia.com/wiki/Mozilla".into(),
        "https://en.wikipedia.com/wiki/Cheese?id=13314&action=edit".into(),
        "https://en.wikipedia.com/wiki/Testing?action=edit".into(),
    ];

    db.enqueue(&urls, &[lens], &settings, &overrides);
    assert_eq!(db.rows.len(), 4);

    let query = remove_by_rule("https://en.wikipedia.com/%action=%");
    let before = db.rows.len();
    db.rows.retain(|row| !Db::selects(&query, row));
    assert_eq!(before - db.rows.len(), 2);
}

#[test]
fn test_create_ruleset() {
    let lens = LensConfig {
        domains: Vec::new(),
        urls: vec!["^https://walkingdead.fandom.com/wiki/.*".into()],
        rules: vec![LensRule::SkipURL("https://walkingdead\\.fandom\\.com/.*/Gallery".into())],
    };

    let rules = create_ruleset_from_lens(&lens);
    let allow_list = regex::RegexSet::new(rules.allow_list).unwrap();
    let block_list = regex::RegexSet::new(rules.skip_list).unwrap();

    let valid = "https://walkingdead.fandom.com/wiki/18_Miles_Out";
    let invalid = "https://walkingdead.fandom.com/wiki/Aaron_(Comic_Series)/Gallery";

    assert!(allow_list.is_match(valid));
    assert!(!block_list.is_match(valid));
    // Allowed without the SkipURL
    assert!(allow_list.is_match(invalid));
    // but should now be denied
    assert!(block_list.is_match(invalid));
}

#[test]
fn test_create_ruleset_with_limits() {
    let lens = LensConfig {
        domains: Vec::new(),
        urls: vec!["^https://www.imdb.com/title.*".into()],
        rules: vec![
            LensRule::LimitURLDepth("^https://www.imdb.com/title/?([^/]+/?){0,1}$".into()),
            LensRule::SkipURL("https://www\\.imdb\\.com/title/fake_title.*".into()),
        ],
    };

    let rules = create_ruleset_from_lens(&lens);
    let allow_list = regex::RegexSet::new(rules.allow_list).unwrap();
    let block_list = regex::RegexSet::new(rules.skip_list).unwrap();
    let restrict_list = regex::RegexSet::new(rules.restrict_list).unwrap();

    let valid = vec![
        "https://www.imdb.com/title/tt0094625",
        "https://www.imdb.com/title/tt0094625/",
        "https://www.imdb.com/title",
        "https://www.imdb.com/title/",
    ];

    let invalid = vec![
        // Bare domain should not match
        "https://www.imdb.com",
        // Matches the URL depth but does not match the URL prefix.
        "https://www.imdb.com/blah/blah",
        // Pages past the detail page should not match.
        "https://www.imdb.com/title/tt0094625/reviews",
        // Should block URLs that are skipped but match restrictions
        "https://www.imdb.com/title/fake_title",
    ];

    for url in valid {
        assert!(allow_list.is_match(url));
        // All valid URLs should match the restriction as well.
        assert!(restrict_list.is_match(url));
        assert!(!block_list.is_match(url));
    }

    for url in invalid {
        // Allowed, but then restricted by rules.
        if allow_list.is_match(url) {
            assert!(!restrict_list.is_match(url) || block_list.is_match(url));
        } else {
            // Other not allowed at all
            assert!(!allow_list.is_match(url));
        }
    }
}

#[test]
fn test_filter_urls() {
    let settings = default_settings();
    let overrides = EnqueueSettings::default();
    let lens = LensConfig {
        domains: vec![
            domain_pattern("bahai-library.com"),
            domain_pattern("bahaiworld.bahai.org"),
        ],
        urls: Vec::new(),
        rules: Vec::new(),
    };

    let to_enqueue: Vec<String> = vec![
        "https://bahai-library.com//shoghi-effendi_goals_crusade".into(),
        "https://www.stumbleupon.com/submit?url=https://bahaiworld.bahai.org/library/western-liberal-democracy-as-new-world-order/&title=Western%20Liberal%20Democracy%20as%20New%20World%20Order?".into(),
        "https://www.reddit.com/submit?title=The%20Epic%20of%20Humanity&url=https://bahaiworld.bahai.org/library/the-epic-of-humanity".into()
    ];

    let mut filtered = filter_urls(&[lens], &settings, &overrides, &to_enqueue).unwrap();
    assert_eq!(filtered.len(), 1);
    assert_eq!(
        filtered.pop(),
        Some("https://bahai-library.com//shoghi-effendi_goals_crusade".into())
    );
}

#[test]
fn test_dequeue_recrawl() {
    let settings = default_settings();
    let mut db = Db { clock: 10 * DAY, ..Db::default() };
    let url = "file:///tmp/test.txt";
    db.add("localhost", url, CrawlStatus::Completed, CrawlType::Normal, 9 * DAY);

    let queue = db.dequeue_recrawl(&settings);
    assert!(queue.is_some());
    assert_eq!(queue.unwrap().url, url);
}

#[test]
fn test_update_or_remove_task() {
    let mut db = Db::default();
    let first =
        db.add("example.com", "https://example.com", CrawlStatus::Completed, CrawlType::Normal, 0);
    let task = db.add(
        "example.com",
        "https://example.com/redirect",
        CrawlStatus::Completed,
        CrawlType::Normal,
        0,
    );

    let res = db.update_or_remove(task, "https://example.com").expect("success");

    // Should update the task URL, delete the duplicate, and return the first model
    assert_eq!(res.url, "https://example.com");
    assert_eq!(res.id, first);
    assert_eq!(1, db.rows.len());
}

#[test]
fn update_gives_the_task_its_url() {
    let mut db = Db { clock: 77, ..Db::default() };
    let id = db.add("example.com", "https://example.com/a", CrawlStatus::Completed, CrawlType::Api, 5);
    let res = db.update_or_remove(id, "https://example.com/b").unwrap();
    assert_eq!(res.url, "https://example.com/b");
    // The task comes back as it was found, but for its URL.
    assert_eq!(res.updated_at, at(5));
    assert_eq!(db.rows.len(), 1);
    assert_eq!(db.rows[0].url, "https://example.com/b");
    assert_eq!(db.rows[0].updated_at, at(77));

    let same = db.update_or_remove(id, "https://example.com/b").unwrap();
    assert_eq!(same.id, id);
    assert_eq!(db.rows[0].updated_at, at(77));
}

#[test]
fn update_of_an_unknown_task_fails() {
    let mut db = Db::default();
    let res = db.update_or_remove(7, "https://example.com");
    assert_eq!(res.unwrap_err(), "Task not found");
}

#[test]
fn a_failing_database_is_reported() {
    let event: UpdateTaskEvent<String> = UpdateTaskEvent::Failed("gone".to_string());
    match update_or_remove_task(1, "https://example.com", event) {
        UpdateTaskAction::Fail(e) => assert_eq!(e, "gone"),
        other => panic!("{:?}", other),
    }
}

#[test]
fn bootstrapping_tasks_come_first() {
    let settings = default_settings();
    let mut db = Db::default();
    db.add("a.com", "https://a.com/", CrawlStatus::Queued, CrawlType::Normal, 1);
    let second = db.add("b.com", "https://b.com/", CrawlStatus::Queued, CrawlType::Bootstrap, 2);
    assert_eq!(db.dequeue(&settings).unwrap().id, second);
}

#[test]
fn the_least_recently_updated_task_is_taken() {
    let settings = default_settings();
    let mut db = Db { clock: 100, ..Db::default() };
    db.add("a.com", "https://a.com/", CrawlStatus::Queued, CrawlType::Normal, 9);
    let old = db.add("b.com", "https://b.com/", CrawlStatus::Queued, CrawlType::Normal, 3);
    let task = db.dequeue(&settings).unwrap();
    assert_eq!(task.id, old);
    assert_eq!(task.updated_at, at(100));
}

#[test]
fn nothing_is_taken_beyond_the_limit() {
    let settings =
        UserSettings { inflight_crawl_limit: Limit::Finite(1), ..default_settings() };
    let mut db = Db::default();
    db.add("a.com", "https://a.com/", CrawlStatus::Queued, CrawlType::Bootstrap, 1);
    db.add("b.com", "https://b.com/", CrawlStatus::Queued, CrawlType::Bootstrap, 2);
    assert!(db.dequeue(&settings).is_some());
    assert!(db.dequeue(&settings).is_none());
    assert_eq!(db.all(&num_tasks_in_progress()).len(), 1);

    let unlimited =
        UserSettings { inflight_crawl_limit: Limit::Infinite(u32::MAX), ..default_settings() };
    assert!(db.dequeue(&unlimited).is_some());
}

#[test]
fn a_domain_has_a_limit_of_its_own() {
    let settings = default_settings();
    let mut db = Db::default();
    for i in 0..3 {
        let url = format!("https://a.com/{}", i);
        db.add("a.com", &url, CrawlStatus::Queued, CrawlType::Normal, i);
    }
    assert!(db.dequeue(&settings).is_some());
    assert!(db.dequeue(&settings).is_some());
    assert!(db.dequeue(&settings).is_none());
}

#[test]
fn a_task_that_is_gone_is_not_returned() {
    let settings = default_settings();
    let event: DequeueEvent<String> = DequeueEvent::UpdateFailed;
    match dequeue(&settings, event) {
        DequeueAction::Return(None) => {}
        other => panic!("{:?}", other),
    }
    let event: DequeueEvent<String> = DequeueEvent::Failed("locked".to_string());
    match dequeue(&settings, event) {
        DequeueAction::Fail(e) => assert_eq!(e, "locked"),
        other => panic!("{:?}", other),
    }
}

#[test]
fn files_are_crawled_again_after_a_day() {
    let settings = default_settings();
    let mut db = Db { clock: 10 * DAY - 1, ..Db::default() };
    db.add("localhost", "file:///a.txt", CrawlStatus::Completed, CrawlType::Normal, 9 * DAY);
    assert!(db.dequeue_recrawl(&settings).is_none());
    db.clock += 1;
    assert_eq!(db.dequeue_recrawl(&settings).unwrap().status, CrawlStatus::Processing);
    // It is in progress now.
    assert!(db.dequeue_recrawl(&settings).is_none());
}

#[test]
fn only_local_files_are_crawled_again() {
    let settings = default_settings();
    let mut db = Db { clock: 100 * DAY, ..Db::default() };
    db.add("a.com", "https://a.com/", CrawlStatus::Completed, CrawlType::Normal, 0);
    db.add("localhost", "file:///queued.txt", CrawlStatus::Queued, CrawlType::Normal, 0);
    db.add("localhost", "file:///new.txt", CrawlStatus::Completed, CrawlType::Normal, DAY);
    let old = db.add("localhost", "file:///old.txt", CrawlStatus::Completed, CrawlType::Normal, 1);
    assert_eq!(db.dequeue_recrawl(&settings).unwrap().id, old);

    let full = UserSettings { inflight_crawl_limit: Limit::Finite(1), ..default_settings() };
    assert!(db.dequeue_recrawl(&full).is_none());
    let event: RecrawlEvent<String> = RecrawlEvent::Failed("locked".to_string());
    match dequeue_recrawl(&settings, event) {
        RecrawlAction::Fail(e) => assert_eq!(e, "locked"),
        other => panic!("{:?}", other),
    }
}

#[test]
fn a_failing_task_is_tried_six_times_more() {
    let mut db = Db::default();
    let id = db.add("a.com", "https://a.com/", CrawlStatus::Processing, CrawlType::Normal, 0);
    for n in 1..=6 {
        db.mark_failed(id, true);
        assert_eq!(db.status(id), CrawlStatus::Queued);
        assert_eq!(db.rows[0].num_retries, n);
    }
    for _ in 0..3 {
        db.mark_failed(id, true);
        assert_eq!(db.status(id), CrawlStatus::Failed);
        assert_eq!(db.rows[0].num_retries, 6);
    }
}

#[test]
fn a_task_without_retry_fails_at_once() {
    let mut db = Db::default();
    let id = db.add("a.com", "https://a.com/", CrawlStatus::Processing, CrawlType::Normal, 0);
    db.mark_failed(id, false);
    assert_eq!(db.status(id), CrawlStatus::Failed);
    assert_eq!(db.rows[0].num_retries, 0);
    // No such task: nothing happens.
    db.mark_failed(id + 1, true);
    assert_eq!(db.rows.len(), 1);
}

#[test]
fn a_done_task_is_completed_and_tagged() {
    let mut db = Db::default();
    let id = db.add("a.com", "https://a.com/", CrawlStatus::Processing, CrawlType::Normal, 0);
    let tags: Vec<TagPair> = vec![("type".to_string(), "web".to_string())];
    let task = db.mark_done(id, Some(tags.clone())).unwrap();
    assert_eq!(task.status, CrawlStatus::Completed);
    assert_eq!(db.tags, vec![(id, tags)]);
    let task = db.mark_done(id, None).unwrap();
    assert_eq!(task.status, CrawlStatus::Completed);
    assert_eq!(db.tags.len(), 1);
    assert!(db.mark_done(id + 1, None).is_none());
}

#[test]
fn tasks_in_flight_are_queued_again() {
    let mut db = Db::default();
    let a = db.add("a.com", "https://a.com/", CrawlStatus::Processing, CrawlType::Normal, 0);
    let b = db.add("b.com", "https://b.com/", CrawlStatus::Failed, CrawlType::Normal, 0);
    let reset = reset_processing(at(31));
    for row in db.rows.iter_mut() {
        if Db::selects(&reset.filter, row) {
            row.status = reset.status;
            row.updated_at = reset.updated_at;
        }
    }
    assert_eq!(db.rows[0].updated_at, at(31));
    assert_eq!(db.rows[1].updated_at, at(0));
    assert_eq!(db.status(a), CrawlStatus::Queued);
    assert_eq!(db.status(b), CrawlStatus::Failed);
    assert_eq!(db.all(&num_tasks_in_progress()).len(), 0);
}

#[test]
fn adding_a_url_twice_adds_one_task() {
    let settings = UserSettings { crawl_external_links: true, ..default_settings() };
    let overrides = EnqueueSettings::default();
    let mut db = Db::default();
    let url = "https://a.com/#top".to_string();
    db.enqueue(&[url.clone(), "https://a.com/#bottom".to_string()], &[], &settings, &overrides);
    let id = db.rows[0].id;
    db.mark_failed(id, false);
    db.enqueue(&[url], &[], &settings, &overrides);
    assert_eq!(db.rows.len(), 1);
    assert_eq!(db.status(id), CrawlStatus::Failed);
    assert_eq!(db.rows[0].url, "https://a.com/");
}

#[test]
fn indexed_urls_are_left_out() {
    let settings = UserSettings { crawl_external_links: true, ..default_settings() };
    let mut db = Db::default();
    db.indexed.push(("a.com".to_string(), "https://a.com/".to_string()));
    let urls = vec!["https://a.com/".to_string(), "https://b.com/".to_string()];
    db.enqueue(&urls, &[], &settings, &EnqueueSettings::default());
    assert_eq!(db.rows.len(), 1);
    assert_eq!(db.rows[0].domain, "b.com");

    let again = EnqueueSettings { is_recrawl: true, ..EnqueueSettings::default() };
    db.enqueue(&urls, &[], &settings, &again);
    assert_eq!(db.rows.len(), 2);
}

fn many_urls() -> Vec<String> {
    (0..10_001).map(|i| format!("https://a.com/{}", i)).collect()
}

#[test]
fn a_failing_lookup_inserts_nothing() {
    let settings = UserSettings { crawl_external_links: true, ..default_settings() };
    let overrides = EnqueueSettings::default();
    let mut db = Db { failing_lookup: Some(2), ..Db::default() };
    let end = db.try_enqueue(&many_urls(), &[], &settings, &overrides);
    assert_eq!(end.unwrap_err(), "lookup failed");
    assert!(db.rows.is_empty());

    // There are no lookups when URLs are crawled again.
    let again = EnqueueSettings { is_recrawl: true, ..EnqueueSettings::default() };
    db.failing_lookup = Some(1);
    let few = vec!["https://a.com/".to_string()];
    assert!(db.try_enqueue(&few, &[], &settings, &again).is_ok());
    assert_eq!(db.rows.len(), 1);
}

#[test]
fn a_failing_insert_stops_nothing() {
    let settings = UserSettings { crawl_external_links: true, ..default_settings() };
    let overrides = EnqueueSettings::default();
    let event: EnqueueEvent<String> = EnqueueEvent::Start(
        enqueue_all(&many_urls(), &[], &settings, &overrides).unwrap(),
    );
    let mut action = enqueue_step(event, &overrides, &None, at(0));
    let mut tried: Vec<(usize, Option<String>)> = Vec::new();
    loop {
        let event = match action {
            EnqueueAction::LookUp(_, plan) => EnqueueEvent::LookedUp(Vec::new(), plan),
            EnqueueAction::Insert(batch, left) => {
                tried.push((batch.rows.len(), batch.rows[0].url.clone()));
                EnqueueEvent::InsertFailed(left)
            }
            EnqueueAction::Return => break,
            other => panic!("{:?}", other),
        };
        action = enqueue_step(event, &overrides, &None, at(0));
    }
    assert_eq!(
        tried,
        vec![
            (5_000, Some("https://a.com/0".to_string())),
            (5_000, Some("https://a.com/5000".to_string())),
            (1, Some("https://a.com/10000".to_string())),
        ]
    );

    // The second statement holds one task, and is the only one to succeed.
    let mut db = Db { failing_insert: Some(1), ..Db::default() };
    let few: Vec<String> = many_urls().into_iter().take(5_001).collect();
    assert!(db.try_enqueue(&few, &[], &settings, &overrides).is_ok());
    assert_eq!(db.rows.len(), 1);
    assert_eq!(db.rows[0].url, "https://a.com/5000");
}

#[test]
fn a_url_without_a_host_stops_all() {
    let settings = UserSettings { crawl_external_links: true, ..default_settings() };
    let mut db = Db::default();
    let urls = vec!["https://a.com/".to_string(), "api:foo".to_string()];
    let end = db.try_enqueue(&urls, &[], &settings, &EnqueueSettings::default());
    assert_eq!(end.unwrap_err(), "api:foo");
    assert!(db.rows.is_empty());
}

#[test]
fn the_statistics_count_every_task() {
    let mut db = Db::default();
    for (i, (domain, status)) in [
        ("a.com", CrawlStatus::Queued),
        ("a.com", CrawlStatus::Queued),
        ("a.com", CrawlStatus::Failed),
        ("b.com", CrawlStatus::Queued),
    ]
    .into_iter()
    .enumerate()
    {
        db.add(domain, &format!("https://{}/{}", domain, i), status, CrawlType::Normal, 0);
    }
    let mut stats: Vec<QueueCountByStatus> = Vec::new();
    for row in &db.rows {
        let status = format!("{:?}", row.status);
        match stats.iter_mut().find(|s| s.domain == row.domain && s.status == status) {
            Some(entry) => entry.count += 1,
            None => {
                stats.push(QueueCountByStatus { count: 1, domain: row.domain.clone(), status })
            }
        }
    }
    assert_eq!(stats.iter().map(|s| s.count).collect::<Vec<i64>>(), vec![2, 1, 1]);
    assert_eq!(stats.iter().map(|s| s.count).sum::<i64>(), 4);
}
