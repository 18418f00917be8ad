use spyglass::address::{can_handle_scheme, UrlParts};
use spyglass::backend::{
    crawl_queue_capacity, may_start, shutdown_steps, startup_steps, BackendStep,
};
use spyglass::batch::cut;
use spyglass::enqueue::{
    domain_of, enqueue_all, enqueue_found, make_task, plan_lookups, OnConflict,
};
use spyglass::filter::{collect_rules, filter_by_rules, filter_urls, is_admitted};
use spyglass::query::{queue_stats, remove_by_rule, UrlMatch};
use spyglass::rules::{LensRuleSets, RuleList, UrlRules, Verdict};
use spyglass::settings::{LensConfig, LensRule, Limit, UserSettings};
use spyglass::task::{ActiveModel, CrawlStatus, CrawlType, EnqueueSettings};
use spyglass::text::contains_text;
use spyglass::time::{Timestamp, MAX_SECONDS, MIN_SECONDS};

fn at(seconds: i64, nanos: u32) -> Timestamp {
    Timestamp::new(seconds, nanos).unwrap()
}

fn strings(list: &[&str]) -> Vec<String> {
    list.iter().map(|s| s.to_string()).collect()
}

fn settings(external: bool, block_list: &[&str]) -> UserSettings {
    UserSettings {
        block_list: strings(block_list),
        crawl_external_links: external,
        domain_crawl_limit: Limit::Finite(500_000),
        inflight_crawl_limit: Limit::Finite(10),
        inflight_domain_limit: Limit::Finite(2),
    }
}

fn lens(domains: &[&str], rules: Vec<LensRule>) -> LensConfig {
    LensConfig { domains: strings(domains), urls: Vec::new(), rules }
}

fn filter(lenses: &[LensConfig], settings: &UserSettings, force: bool, urls: &[&str]) -> Vec<String> {
    let overrides = EnqueueSettings { force_allow: force, ..EnqueueSettings::default() };
    filter_urls(lenses, settings, &overrides, &strings(urls)).unwrap()
}

#[test]
fn days_are_rounded_towards_zero() {
    let day = 86_400;
    assert_eq!(at(day, 0).days_since(&at(0, 0)), 1);
    assert_eq!(at(day, 0).days_since(&at(0, 1)), 0);
    assert_eq!(at(day, 1).days_since(&at(0, 1)), 1);
    assert_eq!(at(0, 1).days_since(&at(day, 0)), 0);
    assert_eq!(at(0, 0).days_since(&at(day, 0)), -1);
    assert_eq!(at(0, 0).days_since(&at(2 * day, 999_999_999)), -2);
    assert_eq!(at(-day, 0).days_since(&at(-3 * day, 0)), 2);
}

#[test]
fn the_calendar_has_ends() {
    let first = at(MIN_SECONDS, 0);
    let last = at(MAX_SECONDS, 999_999_999);
    assert_eq!(last.days_since(&first), (MAX_SECONDS - MIN_SECONDS) / 86_400);
    assert_eq!(first.days_since(&last), -(MAX_SECONDS - MIN_SECONDS) / 86_400);
    assert!(Timestamp::new(MIN_SECONDS - 1, 0).is_none());
    assert!(Timestamp::new(MAX_SECONDS + 1, 0).is_none());
    assert!(Timestamp::new(0, 1_000_000_000).is_none());
    assert_eq!(at(-5, 7).parts(), (-5, 7));
    let end = chrono::DateTime::<chrono::Utc>::MAX_UTC;
    assert_eq!(end.timestamp(), MAX_SECONDS);
    let start = chrono::DateTime::<chrono::Utc>::MIN_UTC;
    assert_eq!(start.timestamp(), MIN_SECONDS);
}

#[test]
fn fragments_are_dropped_and_urls_normalised() {
    let kept = filter(
        &[],
        &settings(true, &[]),
        false,
        &["https://wikipedia.org/Rust#Blah", "HTTPS://Wikipedia.ORG:443/Rust", "https://a.com/?q=#"],
    );
    assert_eq!(
        kept,
        vec!["https://wikipedia.org/Rust", "https://wikipedia.org/Rust", "https://a.com/?q="]
    );
}

#[test]
fn only_some_schemes_are_handled() {
    let kept = filter(
        &[],
        &settings(true, &[]),
        false,
        &[
            "ftp://a.com/",
            "http://a.com/",
            "not a url",
            "file:///tmp/a.txt",
            "mailto:a@a.com",
            "api://github/user",
            "https://a.com/",
        ],
    );
    assert_eq!(
        kept,
        vec!["http://a.com/", "file:///tmp/a.txt", "api://github/user", "https://a.com/"]
    );
    assert!(can_handle_scheme(&"api".to_string()));
    assert!(!can_handle_scheme(&"ftp".to_string()));
    assert!(!can_handle_scheme(&"HTTP".to_string()));
}

#[test]
fn the_verdict_decides() {
    for bits in 0..32 {
        let verdict =
            Verdict { allowed: bits & 1 != 0, skipped: bits & 2 != 0, restricted: bits & 4 != 0 };
        let external = bits & 8 != 0;
        let force = bits & 16 != 0;
        let expected = !verdict.skipped
            && !verdict.restricted
            && (external || force || verdict.allowed);
        assert_eq!(is_admitted(verdict, external, force), expected);
    }
}

#[test]
fn sets_tell_what_matches() {
    let sets = LensRuleSets {
        allow_list: strings(&["^https://a\\.com", "x+y"]),
        skip_list: strings(&["secret"]),
        restrict_list: strings(&["/one$", "/two$"]),
    };
    let rules = UrlRules::compile(&sets).unwrap();
    assert_eq!(
        rules.verdict("https://a.com/one"),
        Verdict { allowed: true, skipped: false, restricted: false }
    );
    assert_eq!(
        rules.verdict("https://b.com/secret/xxy"),
        Verdict { allowed: true, skipped: true, restricted: true }
    );
    assert_eq!(
        rules.verdict("https://b.com/two"),
        Verdict { allowed: false, skipped: false, restricted: false }
    );
    let urls = strings(&["https://a.com/two#x", "https://a.com/three", "https://b.com/one"]);
    assert_eq!(filter_by_rules(&rules, false, false, &urls), vec!["https://a.com/two"]);
    assert_eq!(
        filter_by_rules(&rules, false, true, &urls),
        vec!["https://a.com/two", "https://b.com/one"]
    );
}

#[test]
fn empty_sets_match_nothing() {
    let sets =
        LensRuleSets { allow_list: Vec::new(), skip_list: Vec::new(), restrict_list: Vec::new() };
    let rules = UrlRules::compile(&sets).unwrap();
    assert_eq!(
        rules.verdict("https://a.com/"),
        Verdict { allowed: false, skipped: false, restricted: false }
    );
    assert!(filter(&[], &settings(false, &[]), false, &["https://a.com/"]).is_empty());
    assert_eq!(
        filter(&[], &settings(false, &[]), true, &["https://a.com/"]),
        vec!["https://a.com/"]
    );
}

#[test]
fn the_block_list_always_wins() {
    let lenses = [lens(&["^https://a\\.com"], Vec::new())];
    let blocked = settings(true, &["^https://a\\.com"]);
    assert!(filter(&lenses, &blocked, true, &["https://a.com/"]).is_empty());
    assert_eq!(
        filter(&lenses, &settings(true, &[]), true, &["https://a.com/"]),
        vec!["https://a.com/"]
    );
}

#[test]
fn a_restriction_leaves_out_what_it_does_not_match() {
    let lenses = [lens(
        &["^https://a\\.com"],
        vec![LensRule::LimitURLDepth("^https://a\\.com/[^/]*$".to_string())],
    )];
    let kept =
        filter(&lenses, &settings(false, &[]), false, &["https://a.com/x", "https://a.com/x/y"]);
    assert_eq!(kept, vec!["https://a.com/x"]);
}

#[test]
fn the_order_of_lenses_does_not_matter() {
    let urls = ["https://a.com/x", "https://b.com/", "https://a.com/skip", "https://c.com/"];
    let rule = || vec![LensRule::SkipURL("skip".to_string())];
    let first = [lens(&["^https://a\\.com"], rule()), lens(&["^https://b\\.com"], Vec::new())];
    let second = [lens(&["^https://b\\.com"], Vec::new()), lens(&["^https://a\\.com"], rule())];
    let kept = filter(&first, &settings(false, &[]), false, &urls);
    assert_eq!(kept, vec!["https://a.com/x", "https://b.com/"]);
    assert_eq!(kept, filter(&second, &settings(false, &[]), false, &urls));
}

#[test]
fn rules_are_collected_in_order() {
    let lenses = [
        lens(
            &["a", "b"],
            vec![
                LensRule::SkipURL("s1".to_string()),
                LensRule::LimitURLDepth("d1".to_string()),
                LensRule::SkipURL("s2".to_string()),
            ],
        ),
        LensConfig {
            domains: strings(&["c"]),
            urls: strings(&["u"]),
            rules: vec![LensRule::LimitURLDepth("d2".to_string())],
        },
    ];
    let sets = collect_rules(&lenses, &strings(&["blocked"]));
    assert_eq!(sets.allow_list, vec!["a", "b", "c", "u"]);
    assert_eq!(sets.skip_list, vec!["blocked", "s1", "s2"]);
    assert_eq!(sets.restrict_list, vec!["d1", "d2"]);
}

#[test]
fn patterns_that_do_not_compile_are_reported() {
    let bad = |list: RuleList| {
        let lenses = [LensConfig {
            domains: if list == RuleList::Allow { strings(&["("]) } else { Vec::new() },
            urls: Vec::new(),
            rules: if list == RuleList::Restrict {
                vec![LensRule::LimitURLDepth("[".to_string())]
            } else {
                Vec::new()
            },
        }];
        let block_list: &[&str] = if list == RuleList::Skip { &["*"] } else { &[] };
        let overrides = EnqueueSettings::default();
        let error =
            filter_urls(&lenses, &settings(false, block_list), &overrides, &[]).unwrap_err();
        assert!(error.cause.is_some());
        let again =
            enqueue_all(&[], &lenses, &settings(false, block_list), &overrides).unwrap_err();
        assert_eq!(again.list, error.list);
        error.list
    };
    assert_eq!(bad(RuleList::Allow), RuleList::Allow);
    assert_eq!(bad(RuleList::Skip), RuleList::Skip);
    assert_eq!(bad(RuleList::Restrict), RuleList::Restrict);
}

#[test]
fn the_first_list_that_fails_is_blamed() {
    let compile = |allow: &str, skip: &str, restrict: &str| {
        let sets = LensRuleSets {
            allow_list: strings(&[allow]),
            skip_list: strings(&[skip]),
            restrict_list: strings(&[restrict]),
        };
        UrlRules::compile(&sets).err().map(|e| e.list)
    };
    assert_eq!(compile("(", "(", "("), Some(RuleList::Allow));
    assert_eq!(compile("a", "(", "("), Some(RuleList::Skip));
    assert_eq!(compile("a", "b", "("), Some(RuleList::Restrict));
    assert_eq!(compile("a", "b", "c"), None);
}

#[test]
fn a_limit_is_reached() {
    assert!(!Limit::Finite(2).is_reached(1));
    assert!(Limit::Finite(2).is_reached(2));
    assert!(!Limit::Infinite(2).is_reached(u64::MAX));
}

#[test]
fn lists_are_cut_into_batches() {
    let lens: Vec<usize> = cut((0..5001).collect::<Vec<u32>>(), 5000).iter().map(|b| b.len()).collect();
    assert_eq!(lens, vec![5000, 1]);
    assert_eq!(cut(vec![1, 2, 3, 4], 2), vec![vec![1, 2], vec![3, 4]]);
    assert_eq!(cut(vec![1, 2, 3], 2), vec![vec![1, 2], vec![3]]);
    assert_eq!(cut(vec![1], 2), vec![vec![1]]);
    assert!(cut(Vec::<u8>::new(), 2).is_empty());
}

#[test]
fn lookups_and_inserts_come_in_batches() {
    let urls: Vec<String> = (0..10_001).map(|i| format!("https://a.com/{}", i)).collect();
    let overrides = EnqueueSettings::default();
    let plan = enqueue_all(&urls, &[], &settings(true, &[]), &overrides).unwrap();
    assert_eq!(plan.urls, urls);
    let sizes: Vec<usize> = plan.lookups.iter().map(|b| b.len()).collect();
    assert_eq!(sizes, vec![5_000, 5_000, 1]);
    assert_eq!(plan.lookups.concat(), urls);

    let known = vec![urls[0].clone(), urls[1].clone()];
    let batches = enqueue_found(&plan.urls, &known, &overrides, &None, at(3, 0)).unwrap();
    let sizes: Vec<usize> = batches.iter().map(|b| b.rows.len()).collect();
    assert_eq!(sizes, vec![5_000, 4_999]);
    assert_eq!(batches[0].rows[0].url, Some(urls[2].clone()));
    assert_eq!(batches[1].rows[4_998].url, Some(urls[10_000].clone()));
    assert!(batches.iter().all(|b| b.on_conflict == OnConflict::DoNothing));

    assert!(plan_lookups(&urls, true).is_empty());
    let recrawl = EnqueueSettings { is_recrawl: true, ..EnqueueSettings::default() };
    let batches = enqueue_found(&plan.urls, &known, &recrawl, &None, at(3, 0)).unwrap();
    let sizes: Vec<usize> = batches.iter().map(|b| b.rows.len()).collect();
    assert_eq!(sizes, vec![5_000, 5_000, 1]);
    assert!(batches.iter().all(|b| b.on_conflict == OnConflict::UpdateStatus));
}

#[test]
fn a_new_task_has_all_its_columns() {
    let overrides =
        EnqueueSettings { crawl_type: CrawlType::Bootstrap, ..EnqueueSettings::default() };
    let pipeline = Some("docs".to_string());
    let urls = strings(&["https://a.com/x", "file:///tmp/a.txt", "not a url"]);
    let batches = enqueue_found(&urls, &Vec::new(), &overrides, &pipeline, at(9, 1)).unwrap();
    assert_eq!(batches.len(), 1);
    let rows = &batches[0].rows;
    assert_eq!(rows.len(), 2);
    assert_eq!(rows[0].domain, Some("a.com".to_string()));
    assert_eq!(rows[0].url, Some("https://a.com/x".to_string()));
    assert_eq!(rows[0].status, Some(CrawlStatus::Queued));
    assert_eq!(rows[0].crawl_type, Some(CrawlType::Bootstrap));
    assert_eq!(rows[0].created_at, Some(at(9, 1)));
    assert_eq!(rows[0].updated_at, Some(at(9, 1)));
    assert_eq!(rows[0].pipeline, Some(pipeline));
    assert_eq!(rows[0].num_retries, None);
    assert_eq!(rows[0].id, None);
    assert_eq!(rows[1].domain, Some("localhost".to_string()));
}

#[test]
fn a_url_without_a_host_makes_no_task() {
    let urls = strings(&["https://a.com/", "api:nothing", "api:more"]);
    let error = enqueue_found(&urls, &Vec::new(), &EnqueueSettings::default(), &None, at(0, 0))
        .unwrap_err();
    assert_eq!(error.url, "api:nothing");
    // One that is indexed is not looked at.
    let known = strings(&["api:nothing", "api:more"]);
    let batches =
        enqueue_found(&urls, &known, &EnqueueSettings::default(), &None, at(0, 0)).unwrap();
    assert_eq!(batches[0].rows.len(), 1);
}

#[test]
fn nothing_to_add_makes_no_statement() {
    let batches =
        enqueue_found(&Vec::new(), &Vec::new(), &EnqueueSettings::default(), &None, at(0, 0))
            .unwrap();
    assert!(batches.is_empty());
}

fn parts(scheme: &str, host: Option<&str>) -> UrlParts {
    UrlParts {
        scheme: scheme.to_string(),
        host: host.map(|h| h.to_string()),
        text: String::new(),
    }
}

#[test]
fn files_count_towards_the_local_host() {
    assert_eq!(domain_of(parts("file", Some("server"))), Some("localhost".to_string()));
    assert_eq!(domain_of(parts("file", None)), Some("localhost".to_string()));
    assert_eq!(domain_of(parts("https", Some("a.com"))), Some("a.com".to_string()));
    assert_eq!(domain_of(parts("api", None)), None);

    let url = "u".to_string();
    let task = make_task(&url, Some(parts("https", Some("h"))), CrawlType::Api, &None, at(1, 0));
    let row = task.unwrap().unwrap();
    assert_eq!((row.url, row.domain), (Some(url.clone()), Some("h".to_string())));
    assert!(make_task(&url, None, CrawlType::Api, &None, at(1, 0)).unwrap().is_none());
    let error = make_task(&url, Some(parts("api", None)), CrawlType::Api, &None, at(1, 0));
    assert_eq!(error.unwrap_err().url, "u");
}

#[test]
fn only_updates_are_dated() {
    let task = ActiveModel::new(at(1, 0));
    let task = task.before_save(true, at(2, 0));
    assert_eq!(task.updated_at, Some(at(1, 0)));
    let task = task.before_save(false, at(3, 0));
    assert_eq!(task.updated_at, Some(at(3, 0)));
    assert_eq!(task.created_at, Some(at(1, 0)));
}

#[test]
fn tags_that_failed_are_left_out() {
    let mut task = ActiveModel::new(at(0, 0));
    task.id = Some(8);
    let found: Vec<Result<i64, String>> = vec![Ok(3), Err("locked".to_string()), Ok(5)];
    let insert = task.insert_tags(&found, at(4, 0));
    let links: Vec<(Option<i64>, i64)> =
        insert.rows.iter().map(|r| (r.crawl_queue_id, r.tag_id)).collect();
    assert_eq!(links, vec![(Some(8), 3), (Some(8), 5)]);
    assert_eq!(insert.rows[0].created_at, at(4, 0));
    assert_eq!(insert.rows[1].updated_at, at(4, 0));
    assert!(insert.ignore_duplicates);
}

#[test]
fn statements_have_their_text() {
    let stats = queue_stats();
    assert_eq!(
        stats.sql,
        "SELECT count(*) as count, domain, status FROM crawl_queue GROUP BY domain, status"
    );
    assert!(stats.values.is_empty());
    match remove_by_rule("a%").url {
        UrlMatch::Like(pattern) => assert_eq!(pattern, "a%"),
        other => panic!("{:?}", other),
    }
}

#[test]
fn defaults() {
    assert_eq!(CrawlType::default(), CrawlType::Normal);
    let settings = EnqueueSettings::default();
    assert_eq!(settings.crawl_type, CrawlType::Normal);
    assert!(settings.tags.is_empty() && !settings.force_allow && !settings.is_recrawl);
}

#[test]
fn texts_are_searched() {
    assert!(contains_text("abcabd", "abd"));
    assert!(contains_text("aab", "ab"));
    assert!(!contains_text("ab", "abc"));
    assert!(!contains_text("abab", "ba "));
    assert!(contains_text("", ""));
    assert!(contains_text("\u{e9}t\u{e9}", "t\u{e9}"));
}

#[test]
fn a_missing_migration_file_does_no_harm() {
    assert!(may_start(None));
    assert!(may_start(Some(
        "Migration file of version 'm1' is missing, this migration has been applied but its file is missing"
    )));
    assert!(!may_start(Some("database is locked")));
}

#[test]
fn the_backend_starts_in_order() {
    let steps = startup_steps(Limit::Finite(10));
    let position = |step: BackendStep| steps.iter().position(|s| *s == step).unwrap();
    assert_eq!(steps.len(), 17);
    assert_eq!(steps[0], BackendStep::ResetProcessing);
    assert!(position(BackendStep::OpenCrawlQueue(10)) < position(BackendStep::SpawnManager));
    assert!(position(BackendStep::OpenPipelines(16)) < position(BackendStep::SpawnPipelines));
    assert!(position(BackendStep::SpawnCommits(10)) < position(BackendStep::SpawnApi));
    assert_eq!(crawl_queue_capacity(Limit::Finite(10)), Some(10));
    assert_eq!(crawl_queue_capacity(Limit::Infinite(7)), Some(7));
    assert_eq!(crawl_queue_capacity(Limit::Finite(0)), None);
    assert_eq!(
        startup_steps(Limit::Finite(0)),
        vec![BackendStep::ResetProcessing, BackendStep::ResetLenses, BackendStep::RejectCapacity]
    );
}

#[test]
fn a_shutdown_is_sent_either_way() {
    assert_eq!(
        shutdown_steps(true),
        vec![
            BackendStep::AbortLensWatcher,
            BackendStep::AbortPlugins,
            BackendStep::SendShutdown,
            BackendStep::Join
        ]
    );
    assert_eq!(shutdown_steps(false), vec![BackendStep::SendShutdown, BackendStep::Join]);
}
