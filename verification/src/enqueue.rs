//! Adding URLs to the queue. The database is asked in between: first which of
//! the URLs are indexed already, then to insert the tasks that are left.
use vstd::hash_set::StringHashSet;
use vstd::prelude::*;

use crate::address::{opt_parts, parsed_url, url_parse, UrlParts, UrlView};
use crate::batch::{
    batches, contents, cut, law_batches_are_bounded, law_batches_are_the_list, lemma_batches_map,
};
use crate::filter::{admitted_urls, all_rules, crawlable_form, filter_urls};
use crate::rules::RuleSetError;
use crate::settings::{LensConfig, UserSettings};
use crate::table::{
    all_inserted, conflicts, has_task, law_inserted_urls_are_in_the_queue, valid, waits, Table,
};
use crate::task::{ActiveModel, ActiveModelView, CrawlStatus, CrawlType, EnqueueSettings};
use crate::text::{clone_opt, extend_texts, opt_text, same_text, texts};
use crate::time::Timestamp;

verus! {

/// How many URLs or tasks one statement takes.
pub const BATCH_SIZE: usize = 5_000;

/// What an insert does where a task with the same URL is in the queue already.
#[derive(Clone, Copy, Debug, PartialEq, Eq, Structural)]
pub enum OnConflict {
    /// The task that is there takes the status and the date of update of the new
    /// one, and keeps the rest.
    UpdateStatus,
    /// The task that is there stays as it is.
    DoNothing,
}

/// Tasks that one statement inserts.
#[derive(Debug)]
pub struct InsertBatch {
    pub rows: Vec<ActiveModel>,
    pub on_conflict: OnConflict,
}

/// The URLs that may be added, and the batches of them that are still to be
/// looked up among the indexed documents before they are.
#[derive(Debug)]
pub struct EnqueuePlan {
    pub urls: Vec<String>,
    pub lookups: Vec<Vec<String>>,
    /// What the lookups have told to be indexed so far.
    pub indexed: Vec<String>,
}

/// A URL without a host, which no task can be made of.
#[derive(Debug)]
pub struct HostlessUrl {
    pub url: String,
}

/// The lists of texts in a list of lists.
pub open spec fn text_lists(lists: Seq<Vec<String>>) -> Seq<Seq<Seq<char>>> {
    lists.map_values(|list: Vec<String>| texts(list@))
}

/// The URLs to look up among the indexed documents: all of them, in batches,
/// unless they are to be crawled again anyway.
pub open spec fn index_lookups(urls: Seq<Seq<char>>, is_recrawl: bool) -> Seq<Seq<Seq<char>>> {
    if is_recrawl {
        Seq::empty()
    } else {
        batches(urls, BATCH_SIZE as nat)
    }
}

/// The lookups that `urls` need before tasks are made of them.
pub fn plan_lookups(urls: &Vec<String>, is_recrawl: bool) -> (lookups: Vec<Vec<String>>)
    ensures
        text_lists(lookups@) == index_lookups(texts(urls@), is_recrawl),
{
    if is_recrawl {
        let lookups: Vec<Vec<String>> = Vec::new();
        assert(text_lists(lookups@) =~= Seq::<Seq<Seq<char>>>::empty());
        return lookups;
    }
    let mut copy: Vec<String> = Vec::new();
    extend_texts(&mut copy, urls);
    assert(texts(copy@) =~= texts(urls@));
    let lookups = cut(copy, BATCH_SIZE);
    proof {
        let read = |s: String| s@;
        lemma_batches_map(copy@, read, BATCH_SIZE as nat);
        assert(text_lists(lookups@) =~= contents(lookups@).map_values(
            |batch: Seq<String>| batch.map_values(read),
        ));
    }
    lookups
}

/// Begins to add `urls` to the queue: filters them, and says which of them to
/// look up among the indexed documents. `enqueue_step` goes on from there.
pub fn enqueue_all(
    urls: &[String],
    lenses: &[LensConfig],
    settings: &UserSettings,
    overrides: &EnqueueSettings,
) -> (plan: Result<EnqueuePlan, RuleSetError>)
    ensures
        plan matches Ok(p) ==> {
            &&& texts(p.urls@) == admitted_urls(
                texts(urls@),
                all_rules(lenses@, settings.block_list@),
                settings.crawl_external_links,
                overrides.force_allow,
            )
            &&& forall|k: int| 0 <= k < p.urls@.len() ==> crawlable_form(#[trigger] p.urls@[k]@)
            &&& text_lists(p.lookups@) == index_lookups(texts(p.urls@), overrides.is_recrawl)
            &&& p.indexed@.len() == 0
        },
        plan is Ok ==> all_rules(lenses@, settings.block_list@).few_enough(),
        plan matches Err(e) ==> all_rules(lenses@, settings.block_list@).blames(e),
        plan matches Err(e) ==> (e.cause is None <==> all_rules(
            lenses@,
            settings.block_list@,
        ).list(e.list).len() > 0x7fff_ffff),
{
    match filter_urls(lenses, settings, overrides, urls) {
        Ok(kept) => {
            let lookups = plan_lookups(&kept, overrides.is_recrawl);
            Ok(EnqueuePlan { urls: kept, lookups, indexed: Vec::new() })
        },
        Err(e) => Err(e),
    }
}

/// The domain that a task for the URL counts towards.
pub open spec fn task_domain(url: UrlView) -> Option<Seq<char>> {
    if url.scheme == "file"@ {
        Some("localhost"@)
    } else {
        url.host
    }
}

/// The domain that a task for the URL counts towards.
pub fn domain_of(url: UrlParts) -> (domain: Option<String>)
    ensures
        opt_text(domain) == task_domain(url@),
        url.scheme@ == "file"@ ==> (domain matches Some(text) && text@ == "localhost"@),
        url.scheme@ != "file"@ ==> domain == url.host,
{
    if same_text(&url.scheme, "file") {
        Some("localhost".to_owned())
    } else {
        url.host
    }
}

/// What every new task of one call has in common.
pub struct TaskTemplate {
    pub crawl_type: CrawlType,
    pub pipeline: Option<Seq<char>>,
    pub now: int,
}

impl TaskTemplate {
    /// A new task for a URL.
    pub open spec fn task(self, url: Seq<char>, domain: Seq<char>) -> ActiveModelView {
        ActiveModelView {
            domain: Some(domain),
            crawl_type: Some(self.crawl_type),
            url: Some(url),
            pipeline: Some(self.pipeline),
            ..ActiveModelView::fresh(self.now)
        }
    }
}

/// Whether `url` was parsed but has no domain to count towards.
pub open spec fn lacks_domain(parsed: Option<UrlView>) -> bool {
    parsed matches Some(u) && task_domain(u) is None
}

/// The task for a URL: none, where it does not parse.
pub open spec fn task_for(
    url: Seq<char>,
    parsed: Option<UrlView>,
    template: TaskTemplate,
) -> Option<ActiveModelView> {
    match parsed {
        Some(u) => match task_domain(u) {
            Some(domain) => Some(template.task(url, domain)),
            None => None,
        },
        None => None,
    }
}

/// The contents of an optional set of columns.
pub open spec fn opt_row(row: Option<ActiveModel>) -> Option<ActiveModelView> {
    match row {
        Some(r) => Some(r@),
        None => None,
    }
}

/// Makes the task for a URL, from what parsing it has told.
pub fn make_task(
    url: &String,
    parsed: Option<UrlParts>,
    crawl_type: CrawlType,
    pipeline: &Option<String>,
    now: Timestamp,
) -> (task: Result<Option<ActiveModel>, HostlessUrl>)
    ensures
        task is Err <==> lacks_domain(opt_parts(parsed)),
        task is Err <==> (parsed matches Some(parts) && parts.scheme@ != "file"@
            && parts.host is None),
        task matches Ok(row) ==> (row is Some <==> parsed is Some),
        task matches Err(e) ==> e.url@ == url@,
        task matches Ok(row) ==> opt_row(row) == task_for(
            url@,
            opt_parts(parsed),
            TaskTemplate { crawl_type, pipeline: opt_text(*pipeline), now: now@ },
        ),
{
    match parsed {
        Some(parts) => match domain_of(parts) {
            Some(domain) => {
                let mut task = ActiveModel::new(now);
                task.domain = Some(domain);
                task.crawl_type = Some(crawl_type);
                task.url = Some(url.clone());
                task.pipeline = Some(clone_opt(pipeline));
                Ok(Some(task))
            },
            None => Err(HostlessUrl { url: url.clone() }),
        },
        None => Ok(None),
    }
}

/// The tasks for those of the URLs that are not indexed yet, in order.
pub open spec fn tasks_for(
    urls: Seq<Seq<char>>,
    indexed: Set<Seq<char>>,
    template: TaskTemplate,
) -> Seq<ActiveModelView>
    decreases urls.len(),
{
    if urls.len() == 0 {
        Seq::empty()
    } else {
        let before = tasks_for(urls.drop_last(), indexed, template);
        let url = urls.last();
        if indexed.contains(url) {
            before
        } else {
            match task_for(url, parsed_url(url), template) {
                Some(task) => before.push(task),
                None => before,
            }
        }
    }
}

/// Whether no task can be made of the URL at `i`, though one is wanted.
pub open spec fn hostless_at(urls: Seq<Seq<char>>, indexed: Set<Seq<char>>, i: int) -> bool {
    !indexed.contains(urls[i]) && lacks_domain(parsed_url(urls[i]))
}

/// Whether the URL at `i` is the first that no task can be made of.
pub open spec fn first_hostless(urls: Seq<Seq<char>>, indexed: Set<Seq<char>>, i: int) -> bool {
    &&& 0 <= i < urls.len()
    &&& hostless_at(urls, indexed, i)
    &&& forall|j: int| 0 <= j < i ==> !hostless_at(urls, indexed, j)
}

/// The contents of a list of sets of columns.
pub open spec fn rows(list: Seq<ActiveModel>) -> Seq<ActiveModelView> {
    list.map_values(|row: ActiveModel| row@)
}

/// Makes the tasks for those of the URLs that are not indexed yet.
pub fn make_tasks(
    urls: &Vec<String>,
    indexed: &StringHashSet,
    crawl_type: CrawlType,
    pipeline: &Option<String>,
    now: Timestamp,
) -> (tasks: Result<Vec<ActiveModel>, HostlessUrl>)
    ensures
        tasks matches Ok(list) ==> {
            &&& forall|i: int| 0 <= i < urls@.len() ==> !hostless_at(texts(urls@), indexed@, i)
            &&& rows(list@) == tasks_for(
                texts(urls@),
                indexed@,
                TaskTemplate { crawl_type, pipeline: opt_text(*pipeline), now: now@ },
            )
        },
        tasks matches Err(e) ==> exists|i: int|
            #[trigger] first_hostless(texts(urls@), indexed@, i) && e.url@ == urls@[i]@,
{
    let ghost template = TaskTemplate { crawl_type, pipeline: opt_text(*pipeline), now: now@ };
    let mut tasks: Vec<ActiveModel> = Vec::new();
    assert(rows(tasks@) =~= tasks_for(texts(urls@).take(0), indexed@, template));
    for i in 0..urls.len()
        invariant
            template == (TaskTemplate { crawl_type, pipeline: opt_text(*pipeline), now: now@ }),
            forall|j: int| 0 <= j < i ==> !hostless_at(texts(urls@), indexed@, j),
            rows(tasks@) == tasks_for(texts(urls@).take(i as int), indexed@, template),
    {
        let ghost before = tasks@;
        proof {
            let seen = texts(urls@).take(i + 1);
            assert(seen.drop_last() =~= texts(urls@).take(i as int));
            assert(seen.last() == urls@[i as int]@);
            assert(texts(urls@)[i as int] == urls@[i as int]@);
        }
        if !indexed.contains(urls[i].as_str()) {
            let parsed = url_parse(urls[i].as_str());
            match make_task(&urls[i], parsed, crawl_type, pipeline, now) {
                Ok(Some(task)) => {
                    assert(rows(before.push(task)) =~= rows(before).push(task@));
                    tasks.push(task);
                },
                Ok(None) => {},
                Err(e) => {
                    assert(first_hostless(texts(urls@), indexed@, i as int));
                    return Err(e);
                },
            }
        }
    }
    assert(texts(urls@).take(urls.len() as int) =~= texts(urls@));
    Ok(tasks)
}

/// The contents of the tasks of each batch.
pub open spec fn batch_rows(list: Seq<InsertBatch>) -> Seq<Seq<ActiveModelView>> {
    list.map_values(|batch: InsertBatch| rows(batch.rows@))
}

/// The URLs that no task is wanted for: those that are indexed, unless URLs
/// are to be crawled again.
pub open spec fn known_urls(indexed: Seq<Seq<char>>, is_recrawl: bool) -> Set<Seq<char>> {
    if is_recrawl {
        Set::empty()
    } else {
        indexed.to_set()
    }
}

fn collect_known(indexed: &Vec<String>, is_recrawl: bool) -> (known: StringHashSet)
    ensures
        known@ == known_urls(texts(indexed@), is_recrawl),
{
    let mut known = StringHashSet::new();
    if is_recrawl {
        return known;
    }
    assert(known@ =~= texts(indexed@).take(0).to_set());
    for i in 0..indexed.len()
        invariant
            known@ == texts(indexed@).take(i as int).to_set(),
    {
        proof {
            let seen = texts(indexed@).take(i as int);
            let url = indexed@[i as int]@;
            assert(texts(indexed@).take(i + 1) =~= seen.push(url));
            assert(seen.push(url).to_set() =~= seen.to_set().insert(url)) by {
                assert forall|u: Seq<char>| seen.to_set().insert(url).contains(u) implies seen.push(
                    url,
                ).contains(u) by {
                    if u == url {
                        assert(seen.push(url)[seen.len() as int] == u);
                    } else {
                        let k = choose|k: int| 0 <= k < seen.len() && seen[k] == u;
                        assert(seen.push(url)[k] == u);
                    }
                }
            }
        }
        known.insert(indexed[i].clone());
    }
    assert(texts(indexed@).take(indexed.len() as int) =~= texts(indexed@));
    known
}

/// What an insert does where a task with the same URL is in the queue already.
pub open spec fn conflict_action(is_recrawl: bool) -> OnConflict {
    if is_recrawl {
        OnConflict::UpdateStatus
    } else {
        OnConflict::DoNothing
    }
}

/// Ends adding `urls` to the queue, once the database has told which URLs are
/// `indexed`: the statements that insert the tasks, in order. Fails at the
/// first URL that has no host, and then nothing is inserted.
pub fn enqueue_found(
    urls: &Vec<String>,
    indexed: &Vec<String>,
    overrides: &EnqueueSettings,
    pipeline: &Option<String>,
    now: Timestamp,
) -> (inserts: Result<Vec<InsertBatch>, HostlessUrl>)
    ensures
        inserts matches Ok(list) ==> {
            let known = known_urls(texts(indexed@), overrides.is_recrawl);
            &&& forall|i: int| 0 <= i < urls@.len() ==> !hostless_at(texts(urls@), known, i)
            &&& batch_rows(list@) == batches(
                tasks_for(
                    texts(urls@),
                    known,
                    TaskTemplate {
                        crawl_type: overrides.crawl_type,
                        pipeline: opt_text(*pipeline),
                        now: now@,
                    },
                ),
                BATCH_SIZE as nat,
            )
            &&& forall|i: int|
                0 <= i < list@.len() ==> (#[trigger] list@[i]).on_conflict == conflict_action(
                    overrides.is_recrawl,
                )
        },
        inserts matches Err(e) ==> exists|i: int|
            #[trigger] first_hostless(
                texts(urls@),
                known_urls(texts(indexed@), overrides.is_recrawl),
                i,
            ) && e.url@ == urls@[i]@,
{
    let known = collect_known(indexed, overrides.is_recrawl);
    let tasks = match make_tasks(urls, &known, overrides.crawl_type, pipeline, now) {
        Ok(tasks) => tasks,
        Err(e) => return Err(e),
    };
    let ghost all = tasks@;
    let on_conflict = if overrides.is_recrawl {
        OnConflict::UpdateStatus
    } else {
        OnConflict::DoNothing
    };
    let mut cuts = cut(tasks, BATCH_SIZE);
    let ghost whole = cuts@;
    let mut inserts: Vec<InsertBatch> = Vec::new();
    while cuts.len() > 0
        invariant
            inserts@.len() + cuts@.len() == whole.len(),
            cuts@ == whole.skip(inserts@.len() as int),
            forall|i: int| 0 <= i < inserts@.len() ==> (#[trigger] inserts@[i]).rows@ == whole[i]@,
            forall|i: int|
                0 <= i < inserts@.len() ==> (#[trigger] inserts@[i]).on_conflict == on_conflict,
        decreases cuts.len(),
    {
        let batch = cuts.remove(0);
        inserts.push(InsertBatch { rows: batch, on_conflict });
    }
    proof {
        let read = |row: ActiveModel| row@;
        lemma_batches_map(all, read, BATCH_SIZE as nat);
        assert(batch_rows(inserts@) =~= contents(whole).map_values(
            |batch: Seq<ActiveModel>| batch.map_values(read),
        ));
    }
    Ok(inserts)
}

/// Whether `task` is the task for the URL at `i`, and is wanted.
pub open spec fn wanted_from(
    urls: Seq<Seq<char>>,
    indexed: Set<Seq<char>>,
    template: TaskTemplate,
    i: int,
    task: ActiveModelView,
) -> bool {
    !indexed.contains(urls[i]) && task_for(urls[i], parsed_url(urls[i]), template) == Some(task)
}

/// The tasks that are added are exactly those for the URLs that are not indexed
/// yet and can be parsed.
pub proof fn law_added_iff_wanted(
    urls: Seq<Seq<char>>,
    indexed: Set<Seq<char>>,
    template: TaskTemplate,
    task: ActiveModelView,
)
    ensures
        tasks_for(urls, indexed, template).contains(task) <==> exists|i: int|
            0 <= i < urls.len() && #[trigger] wanted_from(urls, indexed, template, i, task),
    decreases urls.len(),
{
    let added = tasks_for(urls, indexed, template);
    if urls.len() > 0 {
        let init = urls.drop_last();
        let n = init.len() as int;
        let before = tasks_for(init, indexed, template);
        law_added_iff_wanted(init, indexed, template, task);
        if added.contains(task) {
            let k = choose|k: int| 0 <= k < added.len() && added[k] == task;
            if k < before.len() {
                assert(before[k] == task);
                let i = choose|i: int|
                    0 <= i < init.len() && #[trigger] wanted_from(init, indexed, template, i, task);
                assert(wanted_from(urls, indexed, template, i, task));
            } else {
                assert(wanted_from(urls, indexed, template, n, task));
            }
        }
        if exists|i: int|
            0 <= i < urls.len() && #[trigger] wanted_from(urls, indexed, template, i, task) {
            let i = choose|i: int|
                0 <= i < urls.len() && #[trigger] wanted_from(urls, indexed, template, i, task);
            if i < n {
                assert(wanted_from(init, indexed, template, i, task));
                let k = choose|k: int| 0 <= k < before.len() && before[k] == task;
                assert(added[k] == task);
            } else {
                assert(added[added.len() - 1] == task);
            }
        }
    }
}

/// Every task that is added waits to be crawled, was neither tried nor dated
/// before, and is for a URL that was given and that is not indexed.
pub proof fn law_added_tasks_are_queued(
    urls: Seq<Seq<char>>,
    indexed: Set<Seq<char>>,
    template: TaskTemplate,
    task: ActiveModelView,
)
    requires
        tasks_for(urls, indexed, template).contains(task),
    ensures
        task.status == Some(CrawlStatus::Queued),
        task.crawl_type == Some(template.crawl_type),
        task.id is None && task.num_retries is None,
        task.created_at == Some(template.now) && task.updated_at == Some(template.now),
        task.domain is Some,
        task.url matches Some(url) && urls.contains(url) && !indexed.contains(url),
{
    law_added_iff_wanted(urls, indexed, template, task);
    let i = choose|i: int|
        0 <= i < urls.len() && #[trigger] wanted_from(urls, indexed, template, i, task);
    assert(urls.contains(urls[i]));
}

/// Whether a task for the URL is in the queue; if `waiting`, one that waits to
/// be crawled since the instant `now`.
pub open spec fn is_enqueued(table: Table, url: Seq<char>, waiting: bool, now: int) -> bool {
    exists|id: int| #[trigger]
        table.contains_key(id) && table[id].url == url && (waiting ==> table[id].status
            == CrawlStatus::Queued && table[id].updated_at == now)
}

/// Once a faithful database has inserted the tasks one after the other, every
/// URL that is not indexed and that a task can be made of is in the queue, and no
/// URL is in it twice. URLs that are crawled again all wait to be crawled and are
/// dated; otherwise no task that was in the queue before has changed.
pub proof fn law_enqueued_urls_are_in_the_queue(
    tables: Seq<Table>,
    urls: Seq<Seq<char>>,
    indexed: Set<Seq<char>>,
    template: TaskTemplate,
    is_recrawl: bool,
)
    requires
        valid(tables[0]),
        all_inserted(tables, tasks_for(urls, indexed, template), conflict_action(is_recrawl)),
    ensures
        valid(tables.last()),
        forall|i: int|
            0 <= i < urls.len() && !indexed.contains(urls[i]) && task_for(
                urls[i],
                parsed_url(urls[i]),
                template,
            ) is Some ==> is_enqueued(tables.last(), #[trigger] urls[i], is_recrawl, template.now),
        !is_recrawl ==> forall|id: int| #[trigger]
            tables[0].contains_key(id) ==> tables.last().contains_key(id) && tables.last()[id]
                == tables[0][id],
{
    let added = tasks_for(urls, indexed, template);
    let on_conflict = conflict_action(is_recrawl);
    assert forall|k: int| 0 <= k < added.len() implies waits(
        #[trigger] added[k],
        template.now,
    ) by {
        assert(added.contains(added[k]));
        law_added_tasks_are_queued(urls, indexed, template, added[k]);
    }
    law_inserted_urls_are_in_the_queue(tables, added, on_conflict, template.now);
    assert forall|i: int|
        0 <= i < urls.len() && !indexed.contains(urls[i]) && task_for(
            urls[i],
            parsed_url(urls[i]),
            template,
        ) is Some implies is_enqueued(
        tables.last(),
        #[trigger] urls[i],
        is_recrawl,
        template.now,
    ) by {
        let task = task_for(urls[i], parsed_url(urls[i]), template)->0;
        assert(wanted_from(urls, indexed, template, i, task));
        law_added_iff_wanted(urls, indexed, template, task);
        let k = choose|k: int| 0 <= k < added.len() && added[k] == task;
        assert(has_task(tables.last(), added[k], on_conflict));
        let id = choose|id: int| #[trigger]
            conflicts(tables.last(), id, task) && (on_conflict == OnConflict::UpdateStatus
                ==> tables.last()[id].status == CrawlStatus::Queued && Some(
                tables.last()[id].updated_at,
            ) == task.updated_at);
        assert(tables.last().contains_key(id));
    }
}

/// When URLs are crawled again, nothing is looked up and none of them is left
/// out for being indexed.
pub proof fn law_recrawl_ignores_the_index(urls: Seq<Seq<char>>, indexed: Seq<Seq<char>>)
    ensures
        index_lookups(urls, true).len() == 0,
        forall|url: Seq<char>| !known_urls(indexed, true).contains(url),
{
}

/// Otherwise every URL is looked up, in order and once for each time it occurs.
pub proof fn law_every_url_is_looked_up(urls: Seq<Seq<char>>)
    ensures
        index_lookups(urls, false).flatten() == urls,
        forall|i: int|
            0 <= i < index_lookups(urls, false).len() ==> 0 < (#[trigger] index_lookups(
                urls,
                false,
            )[i]).len() <= BATCH_SIZE,
{
    law_batches_are_the_list(urls, BATCH_SIZE as nat);
    law_batches_are_bounded(urls, BATCH_SIZE as nat);
}

/// Whether `task` is a task for the URL that `u` was parsed from: it waits to be
/// crawled, was never tried, counts towards the host of the URL, or towards the
/// local host for a file, and has the rest from the call that adds it.
pub open spec fn is_task_for(
    task: ActiveModelView,
    url: Seq<char>,
    u: UrlView,
    template: TaskTemplate,
) -> bool {
    &&& task.url == Some(url)
    &&& task.domain == if u.scheme == "file"@ {
        Some("localhost"@)
    } else {
        u.host
    }
    &&& task.status == Some(CrawlStatus::Queued)
    &&& task.crawl_type == Some(template.crawl_type)
    &&& task.pipeline == Some(template.pipeline)
    &&& task.created_at == Some(template.now)
    &&& task.updated_at == Some(template.now)
    &&& task.num_retries is None
    &&& task.id is None
}

/// Whether a task can be made of a URL: it is a file or has a host.
pub open spec fn has_place(u: UrlView) -> bool {
    u.scheme == "file"@ || u.host is Some
}

/// Of a URL that is not indexed and that can be parsed exactly one task is made
/// if it is a file or has a host, and none of any other.
pub proof fn law_one_task_for_each_url(
    url: Seq<char>,
    indexed: Set<Seq<char>>,
    template: TaskTemplate,
)
    ensures
        ({
            let made = tasks_for(seq![url], indexed, template);
            match parsed_url(url) {
                Some(u) => if !indexed.contains(url) && has_place(u) {
                    made.len() == 1 && is_task_for(made[0], url, u, template)
                } else {
                    made.len() == 0
                },
                None => made.len() == 0,
            }
        }),
{
    let one = seq![url];
    assert(one.drop_last() =~= Seq::empty());
    assert(one.last() == url);
    assert(tasks_for(one.drop_last(), indexed, template) =~= Seq::empty());
}

/// Tasks are made of the URLs one by one and in order.
pub proof fn law_tasks_are_made_in_order(
    first: Seq<Seq<char>>,
    second: Seq<Seq<char>>,
    indexed: Set<Seq<char>>,
    template: TaskTemplate,
)
    ensures
        tasks_for(first + second, indexed, template) == tasks_for(first, indexed, template)
            + tasks_for(second, indexed, template),
    decreases second.len(),
{
    if second.len() == 0 {
        assert(first + second =~= first);
        assert(tasks_for(first, indexed, template) + Seq::<ActiveModelView>::empty() =~= tasks_for(
            first,
            indexed,
            template,
        ));
    } else {
        law_tasks_are_made_in_order(first, second.drop_last(), indexed, template);
        assert((first + second).drop_last() =~= first + second.drop_last());
        assert((first + second).last() == second.last());
        assert(tasks_for(first + second, indexed, template) =~= tasks_for(first, indexed, template)
            + tasks_for(second, indexed, template));
    }
}

/// Every URL that is not indexed, that can be parsed and that is a file or has a
/// host gets a task.
pub proof fn law_every_missing_url_gets_a_task(
    urls: Seq<Seq<char>>,
    indexed: Set<Seq<char>>,
    template: TaskTemplate,
    i: int,
)
    requires
        0 <= i < urls.len(),
        !indexed.contains(urls[i]),
        parsed_url(urls[i]) matches Some(u) && has_place(u),
    ensures
        exists|k: int|
            0 <= k < tasks_for(urls, indexed, template).len() && is_task_for(
                #[trigger] tasks_for(urls, indexed, template)[k],
                urls[i],
                parsed_url(urls[i])->0,
                template,
            ),
{
    let before = urls.take(i);
    let one = seq![urls[i]];
    let after = urls.skip(i + 1);
    assert(urls =~= (before + one) + after);
    law_tasks_are_made_in_order(before + one, after, indexed, template);
    law_tasks_are_made_in_order(before, one, indexed, template);
    law_one_task_for_each_url(urls[i], indexed, template);
    let k = tasks_for(before, indexed, template).len() as int;
    let made = tasks_for(one, indexed, template);
    assert(tasks_for(urls, indexed, template)[k] == made[0]);
}

/// Every task that is made is for one of the URLs, which is not indexed, can be
/// parsed, and is a file or has a host.
pub proof fn law_every_task_is_for_a_missing_url(
    urls: Seq<Seq<char>>,
    indexed: Set<Seq<char>>,
    template: TaskTemplate,
    task: ActiveModelView,
)
    requires
        tasks_for(urls, indexed, template).contains(task),
    ensures
        exists|i: int|
            0 <= i < urls.len() && !indexed.contains(#[trigger] urls[i]) && (parsed_url(
                urls[i],
            ) matches Some(u) && has_place(u) && is_task_for(task, urls[i], u, template)),
    decreases urls.len(),
{
    let all = tasks_for(urls, indexed, template);
    let init = urls.drop_last();
    let one = seq![urls.last()];
    let n = urls.len() - 1;
    assert(urls =~= init + one);
    law_tasks_are_made_in_order(init, one, indexed, template);
    law_one_task_for_each_url(urls.last(), indexed, template);
    let before = tasks_for(init, indexed, template);
    let k = choose|k: int| 0 <= k < all.len() && all[k] == task;
    if k < before.len() {
        assert(before[k] == task);
        law_every_task_is_for_a_missing_url(init, indexed, template, task);
        let i = choose|i: int|
            0 <= i < init.len() && !indexed.contains(#[trigger] init[i]) && (parsed_url(
                init[i],
            ) matches Some(u) && has_place(u) && is_task_for(task, init[i], u, template));
        assert(urls[i] == init[i]);
    } else {
        assert(all[k] == tasks_for(one, indexed, template)[k - before.len()]);
        assert(urls[n] == urls.last());
    }
}

/// No task is wanted exactly for the URLs that the lookups have told to be
/// indexed; for all URLs one is, if they are crawled again.
pub proof fn law_known_urls_are_indexed(indexed: Seq<Seq<char>>, is_recrawl: bool, url: Seq<char>)
    ensures
        known_urls(indexed, is_recrawl).contains(url) <==> !is_recrawl && exists|k: int|
            0 <= k < indexed.len() && #[trigger] indexed[k] == url,
{
    if known_urls(indexed, is_recrawl).contains(url) {
        assert(indexed.contains(url));
    }
}

/// A statement takes five thousand rows, and only the last may take fewer.
pub proof fn law_statements_are_full<T>(list: Seq<T>)
    ensures
        ({
            let cut = batches(list, BATCH_SIZE as nat);
            forall|i: int|
                0 <= i < cut.len() ==> 0 < (#[trigger] cut[i]).len() <= 5_000 && (i < cut.len() - 1
                    ==> cut[i].len() == 5_000)
        }),
    decreases list.len(),
{
    law_batches_are_bounded(list, BATCH_SIZE as nat);
    if list.len() > BATCH_SIZE {
        let rest = list.skip(BATCH_SIZE as int);
        law_statements_are_full(rest);
        let cut = batches(list, BATCH_SIZE as nat);
        let tail = batches(rest, BATCH_SIZE as nat);
        assert forall|i: int| 0 <= i < cut.len() implies 0 < (#[trigger] cut[i]).len() <= 5_000 && (i
            < cut.len() - 1 ==> cut[i].len() == 5_000) by {
            if i > 0 {
                assert(cut[i] == tail[i - 1]);
            }
        }
    }
}

} // verus!
