//! Adding URLs to the queue, step by step. The caller performs each action on
//! the database and hands its outcome back as the next event, until the action
//! is to return or to report a failure.
use vstd::prelude::*;

use crate::address::parsed_url;
use crate::batch::{
    batches, law_batches_are_the_list, lemma_batch_is_part, lemma_part_is_in_a_batch,
};
use crate::enqueue::{
    conflict_action, enqueue_found, first_hostless, has_place, hostless_at, index_lookups,
    is_task_for, known_urls, law_added_tasks_are_queued, law_every_missing_url_gets_a_task,
    law_statements_are_full, rows, tasks_for, text_lists, EnqueuePlan, HostlessUrl, InsertBatch,
    OnConflict, TaskTemplate, BATCH_SIZE,
};
use crate::table::{
    all_inserted, has_task, law_inserted_urls_are_in_the_queue, valid, waits, Table,
};
use crate::task::{ActiveModelView, EnqueueSettings};
use crate::text::{extend_texts, opt_text, texts};
use crate::time::Timestamp;

verus! {

/// How far adding URLs has come, and the outcome of the last action.
#[derive(Debug)]
pub enum EnqueueEvent<E> {
    /// The URLs have been filtered.
    Start(EnqueuePlan),
    /// The lookup has told these URLs to be indexed; the plan comes back with it.
    LookedUp(Vec<String>, EnqueuePlan),
    /// The lookup failed.
    LookupFailed(E),
    /// The statement has run; those that are left come back with it.
    Inserted(Vec<InsertBatch>),
    /// The statement failed; those that are left come back with it.
    InsertFailed(Vec<InsertBatch>),
}

/// What to do next in order to add URLs.
#[derive(Debug)]
pub enum EnqueueAction<E> {
    /// Look these URLs up among the indexed documents, and hand the plan back.
    LookUp(Vec<String>, EnqueuePlan),
    /// Insert these tasks, and hand the statements that are left back.
    Insert(InsertBatch, Vec<InsertBatch>),
    /// There is nothing left to do.
    Return,
    /// Report a URL that no task can be made of.
    Hostless(HostlessUrl),
    /// Report the failure.
    Fail(E),
}

/// The contents of an `EnqueuePlan`.
pub struct EnqueuePlanView {
    pub urls: Seq<Seq<char>>,
    pub lookups: Seq<Seq<Seq<char>>>,
    pub indexed: Seq<Seq<char>>,
}

impl View for EnqueuePlan {
    type V = EnqueuePlanView;

    open spec fn view(&self) -> EnqueuePlanView {
        EnqueuePlanView {
            urls: texts(self.urls@),
            lookups: text_lists(self.lookups@),
            indexed: texts(self.indexed@),
        }
    }
}

/// The contents of an `InsertBatch`.
pub struct InsertBatchView {
    pub rows: Seq<ActiveModelView>,
    pub on_conflict: OnConflict,
}

impl View for InsertBatch {
    type V = InsertBatchView;

    open spec fn view(&self) -> InsertBatchView {
        InsertBatchView { rows: rows(self.rows@), on_conflict: self.on_conflict }
    }
}

/// The contents of a list of statements.
pub open spec fn statements(list: Seq<InsertBatch>) -> Seq<InsertBatchView> {
    list.map_values(|batch: InsertBatch| batch@)
}

/// The contents of an `EnqueueEvent`.
pub enum EnqueueEventView<E> {
    Start(EnqueuePlanView),
    LookedUp(Seq<Seq<char>>, EnqueuePlanView),
    LookupFailed(E),
    Inserted(Seq<InsertBatchView>),
    InsertFailed(Seq<InsertBatchView>),
}

impl<E> View for EnqueueEvent<E> {
    type V = EnqueueEventView<E>;

    open spec fn view(&self) -> EnqueueEventView<E> {
        match self {
            EnqueueEvent::Start(plan) => EnqueueEventView::Start(plan@),
            EnqueueEvent::LookedUp(found, plan) => EnqueueEventView::LookedUp(texts(found@), plan@),
            EnqueueEvent::LookupFailed(e) => EnqueueEventView::LookupFailed(*e),
            EnqueueEvent::Inserted(left) => EnqueueEventView::Inserted(statements(left@)),
            EnqueueEvent::InsertFailed(left) => EnqueueEventView::InsertFailed(statements(left@)),
        }
    }
}

/// The contents of an `EnqueueAction`.
pub enum EnqueueActionView<E> {
    LookUp(Seq<Seq<char>>, EnqueuePlanView),
    Insert(InsertBatchView, Seq<InsertBatchView>),
    Return,
    Hostless(Seq<char>),
    Fail(E),
}

impl<E> View for EnqueueAction<E> {
    type V = EnqueueActionView<E>;

    open spec fn view(&self) -> EnqueueActionView<E> {
        match self {
            EnqueueAction::LookUp(urls, plan) => EnqueueActionView::LookUp(texts(urls@), plan@),
            EnqueueAction::Insert(batch, left) => EnqueueActionView::Insert(
                batch@,
                statements(left@),
            ),
            EnqueueAction::Return => EnqueueActionView::Return,
            EnqueueAction::Hostless(e) => EnqueueActionView::Hostless(e.url@),
            EnqueueAction::Fail(e) => EnqueueActionView::Fail(*e),
        }
    }
}

/// The first of the URLs that a task is wanted for but none can be made of.
pub open spec fn hostless_url(urls: Seq<Seq<char>>, known: Set<Seq<char>>) -> Option<Seq<char>> {
    if exists|i: int| first_hostless(urls, known, i) {
        Some(urls[choose|i: int| first_hostless(urls, known, i)])
    } else {
        None
    }
}

/// The statements that insert the tasks for `urls`, in order.
pub open spec fn all_inserts(
    urls: Seq<Seq<char>>,
    known: Set<Seq<char>>,
    template: TaskTemplate,
    is_recrawl: bool,
) -> Seq<InsertBatchView> {
    batches(tasks_for(urls, known, template), BATCH_SIZE as nat).map_values(
        |rows: Seq<ActiveModelView>|
            InsertBatchView { rows, on_conflict: conflict_action(is_recrawl) },
    )
}

/// Runs the next statement, if one is left.
pub open spec fn insert_next<E>(left: Seq<InsertBatchView>) -> EnqueueActionView<E> {
    if left.len() > 0 {
        EnqueueActionView::Insert(left[0], left.drop_first())
    } else {
        EnqueueActionView::Return
    }
}

/// Looks up the next batch of URLs, if one is left; else the tasks are made.
pub open spec fn look_up_next<E>(
    plan: EnqueuePlanView,
    template: TaskTemplate,
    is_recrawl: bool,
) -> EnqueueActionView<E> {
    if plan.lookups.len() > 0 {
        EnqueueActionView::LookUp(
            plan.lookups[0],
            EnqueuePlanView { lookups: plan.lookups.drop_first(), ..plan },
        )
    } else {
        let known = known_urls(plan.indexed, is_recrawl);
        match hostless_url(plan.urls, known) {
            Some(url) => EnqueueActionView::Hostless(url),
            None => insert_next(all_inserts(plan.urls, known, template, is_recrawl)),
        }
    }
}

/// What to do next in order to add URLs: all of them are looked up before any
/// task is inserted, a lookup that fails ends it all, and a statement that fails
/// is passed over.
pub open spec fn enqueue_next<E>(
    event: EnqueueEventView<E>,
    template: TaskTemplate,
    is_recrawl: bool,
) -> EnqueueActionView<E> {
    match event {
        EnqueueEventView::Start(plan) => look_up_next(plan, template, is_recrawl),
        EnqueueEventView::LookedUp(found, plan) => look_up_next(
            EnqueuePlanView { indexed: plan.indexed + found, ..plan },
            template,
            is_recrawl,
        ),
        EnqueueEventView::LookupFailed(e) => EnqueueActionView::Fail(e),
        EnqueueEventView::Inserted(left) => insert_next(left),
        EnqueueEventView::InsertFailed(left) => insert_next(left),
    }
}

/// Whether the first of the statements that are left is to be run, or there is
/// none.
pub open spec fn runs_next<E>(left: Vec<InsertBatch>, action: EnqueueAction<E>) -> bool {
    if left@.len() > 0 {
        action matches EnqueueAction::Insert(batch, rest) && batch == left@[0] && rest@
            == left@.drop_first()
    } else {
        action is Return
    }
}

fn next_insert<E>(left: Vec<InsertBatch>) -> (action: EnqueueAction<E>)
    ensures
        action@ == insert_next::<E>(statements(left@)),
        runs_next(left, action),
{
    let mut left = left;
    if left.len() == 0 {
        return EnqueueAction::Return;
    }
    let ghost whole = left@;
    let batch = left.remove(0);
    assert(statements(left@) =~= statements(whole).drop_first());
    EnqueueAction::Insert(batch, left)
}

proof fn lemma_hostless_url(urls: Seq<Seq<char>>, known: Set<Seq<char>>, i: int)
    requires
        first_hostless(urls, known, i),
    ensures
        hostless_url(urls, known) == Some(urls[i]),
{
    let j = choose|j: int| first_hostless(urls, known, j);
    assert(hostless_at(urls, known, i) && hostless_at(urls, known, j));
    assert(i == j);
}

fn next_lookup<E>(
    plan: EnqueuePlan,
    overrides: &EnqueueSettings,
    pipeline: &Option<String>,
    now: Timestamp,
) -> (action: EnqueueAction<E>)
    ensures
        action@ == look_up_next::<E>(
            plan@,
            TaskTemplate {
                crawl_type: overrides.crawl_type,
                pipeline: opt_text(*pipeline),
                now: now@,
            },
            overrides.is_recrawl,
        ),
        plan.lookups@.len() > 0 ==> (action matches EnqueueAction::LookUp(urls, left) && {
            &&& urls == plan.lookups@[0]
            &&& left.lookups@ == plan.lookups@.drop_first()
            &&& left.urls == plan.urls && left.indexed == plan.indexed
        }),
{
    let mut plan = plan;
    if plan.lookups.len() > 0 {
        let ghost whole = plan.lookups@;
        let urls = plan.lookups.remove(0);
        assert(text_lists(plan.lookups@) =~= text_lists(whole).drop_first());
        return EnqueueAction::LookUp(urls, plan);
    }
    let ghost template = TaskTemplate {
        crawl_type: overrides.crawl_type,
        pipeline: opt_text(*pipeline),
        now: now@,
    };
    let ghost known = known_urls(texts(plan.indexed@), overrides.is_recrawl);
    match enqueue_found(&plan.urls, &plan.indexed, overrides, pipeline, now) {
        Ok(inserts) => {
            proof {
                assert(hostless_url(texts(plan.urls@), known) is None);
                let all = all_inserts(texts(plan.urls@), known, template, overrides.is_recrawl);
                assert forall|i: int| 0 <= i < inserts@.len() implies (#[trigger] statements(
                    inserts@,
                )[i]) == all[i] by {
                    assert(crate::enqueue::batch_rows(inserts@)[i] == rows(inserts@[i].rows@));
                }
                assert(crate::enqueue::batch_rows(inserts@).len() == inserts@.len());
                assert(statements(inserts@) =~= all);
            }
            next_insert(inserts)
        },
        Err(e) => {
            proof {
                let i = choose|i: int|
                    #[trigger] first_hostless(texts(plan.urls@), known, i) && e.url@
                        == plan.urls@[i]@;
                lemma_hostless_url(texts(plan.urls@), known, i);
            }
            EnqueueAction::Hostless(e)
        },
    }
}

/// Adds URLs to the queue, step by step, once `enqueue_all` has made a plan.
pub fn enqueue_step<E>(
    event: EnqueueEvent<E>,
    overrides: &EnqueueSettings,
    pipeline: &Option<String>,
    now: Timestamp,
) -> (action: EnqueueAction<E>)
    ensures
        action@ == enqueue_next(
            event@,
            TaskTemplate {
                crawl_type: overrides.crawl_type,
                pipeline: opt_text(*pipeline),
                now: now@,
            },
            overrides.is_recrawl,
        ),
        match event {
            EnqueueEvent::Start(plan) => plan.lookups@.len() > 0 ==> (
            action matches EnqueueAction::LookUp(urls, left) && {
                &&& urls == plan.lookups@[0]
                &&& left.lookups@ == plan.lookups@.drop_first()
                &&& left.urls == plan.urls && left.indexed == plan.indexed
            }),
            EnqueueEvent::LookedUp(found, plan) => plan.lookups@.len() > 0 ==> (
            action matches EnqueueAction::LookUp(urls, left) && {
                &&& urls == plan.lookups@[0]
                &&& left.lookups@ == plan.lookups@.drop_first()
                &&& left.urls == plan.urls
                &&& texts(left.indexed@) == texts(plan.indexed@) + texts(found@)
            }),
            EnqueueEvent::LookupFailed(e) => action == EnqueueAction::Fail(e),
            EnqueueEvent::Inserted(left) => runs_next(left, action),
            EnqueueEvent::InsertFailed(left) => runs_next(left, action),
        },
{
    match event {
        EnqueueEvent::Start(plan) => next_lookup(plan, overrides, pipeline, now),
        EnqueueEvent::LookedUp(found, plan) => {
            let mut plan = plan;
            extend_texts(&mut plan.indexed, &found);
            next_lookup(plan, overrides, pipeline, now)
        },
        EnqueueEvent::LookupFailed(e) => EnqueueAction::Fail(e),
        EnqueueEvent::Inserted(left) => next_insert(left),
        EnqueueEvent::InsertFailed(left) => next_insert(left),
    }
}

/// What the database answers while URLs are added.
pub struct EnqueueReplies<E> {
    /// What each lookup tells to be indexed, or why it failed.
    pub lookup: spec_fn(nat) -> Result<Seq<Seq<char>>, E>,
    /// Whether each of the statements succeeds.
    pub insert: spec_fn(nat) -> bool,
}

/// How adding URLs ended.
pub enum EnqueueEnd<E> {
    Done,
    Hostless(Seq<char>),
    Failed(E),
}

/// How far adding URLs has come.
pub struct Adding<E> {
    /// How many lookups there were.
    pub looked_up: nat,
    /// The statements that were tried, and whether each succeeded.
    pub tried: Seq<(InsertBatchView, bool)>,
    /// How it ended.
    pub end: Option<EnqueueEnd<E>>,
}

/// Whether lookups, inserts or nothing may follow an event.
pub open spec fn phase<E>(event: EnqueueEventView<E>) -> nat {
    match event {
        EnqueueEventView::Start(_) => 2,
        EnqueueEventView::LookedUp(_, _) => 2,
        EnqueueEventView::Inserted(_) => 1,
        EnqueueEventView::InsertFailed(_) => 1,
        EnqueueEventView::LookupFailed(_) => 0,
    }
}

/// How many lookups or inserts are left after an event.
pub open spec fn left_of<E>(event: EnqueueEventView<E>) -> nat {
    match event {
        EnqueueEventView::Start(plan) => plan.lookups.len(),
        EnqueueEventView::LookedUp(_, plan) => plan.lookups.len(),
        EnqueueEventView::Inserted(left) => left.len(),
        EnqueueEventView::InsertFailed(left) => left.len(),
        EnqueueEventView::LookupFailed(_) => 0,
    }
}

/// Runs `enqueue_step` from an event on.
pub open spec fn run_enqueue<E>(
    event: EnqueueEventView<E>,
    template: TaskTemplate,
    is_recrawl: bool,
    replies: EnqueueReplies<E>,
    so_far: Adding<E>,
) -> Adding<E>
    decreases phase(event), left_of(event),
{
    match enqueue_next(event, template, is_recrawl) {
        EnqueueActionView::LookUp(_, plan) => run_enqueue(
            match (replies.lookup)(so_far.looked_up) {
                Ok(found) => EnqueueEventView::LookedUp(found, plan),
                Err(e) => EnqueueEventView::LookupFailed(e),
            },
            template,
            is_recrawl,
            replies,
            Adding { looked_up: so_far.looked_up + 1, ..so_far },
        ),
        EnqueueActionView::Insert(batch, left) => {
            let succeeds = (replies.insert)(so_far.tried.len());
            run_enqueue(
                if succeeds {
                    EnqueueEventView::Inserted(left)
                } else {
                    EnqueueEventView::InsertFailed(left)
                },
                template,
                is_recrawl,
                replies,
                Adding { tried: so_far.tried.push((batch, succeeds)), ..so_far },
            )
        },
        EnqueueActionView::Return => Adding { end: Some(EnqueueEnd::Done), ..so_far },
        EnqueueActionView::Hostless(url) => Adding {
            end: Some(EnqueueEnd::Hostless(url)),
            ..so_far
        },
        EnqueueActionView::Fail(e) => Adding { end: Some(EnqueueEnd::Failed(e)), ..so_far },
    }
}

/// A whole run of `enqueue_step`.
pub open spec fn enqueue_run<E>(
    plan: EnqueuePlanView,
    template: TaskTemplate,
    is_recrawl: bool,
    replies: EnqueueReplies<E>,
) -> Adding<E> {
    run_enqueue(
        EnqueueEventView::Start(plan),
        template,
        is_recrawl,
        replies,
        Adding { looked_up: 0, tried: Seq::empty(), end: None },
    )
}

/// What the lookups number `from` up to `to` tell together, or why the first of
/// them that fails does.
pub open spec fn all_found<E>(
    lookup: spec_fn(nat) -> Result<Seq<Seq<char>>, E>,
    from: nat,
    to: nat,
) -> Result<Seq<Seq<char>>, E>
    decreases to - from,
{
    if from >= to {
        Ok(Seq::empty())
    } else {
        match lookup(from) {
            Ok(found) => match all_found(lookup, from + 1, to) {
                Ok(more) => Ok(found + more),
                Err(e) => Err(e),
            },
            Err(e) => Err(e),
        }
    }
}

/// The statements with the outcome of each, the first of which has the number
/// `from`.
pub open spec fn outcomes(
    left: Seq<InsertBatchView>,
    insert: spec_fn(nat) -> bool,
    from: nat,
) -> Seq<(InsertBatchView, bool)> {
    Seq::new(left.len(), |k: int| (left[k], insert((from + k) as nat)))
}

proof fn lemma_inserts_run<E>(
    event: EnqueueEventView<E>,
    left: Seq<InsertBatchView>,
    template: TaskTemplate,
    is_recrawl: bool,
    replies: EnqueueReplies<E>,
    so_far: Adding<E>,
)
    requires
        enqueue_next(event, template, is_recrawl) == insert_next::<E>(left),
    ensures
        run_enqueue(event, template, is_recrawl, replies, so_far) == (Adding {
            tried: so_far.tried + outcomes(left, replies.insert, so_far.tried.len()),
            end: Some(EnqueueEnd::Done),
            ..so_far
        }),
    decreases left.len(),
{
    let from = so_far.tried.len();
    let all = so_far.tried + outcomes(left, replies.insert, from);
    if left.len() == 0 {
        assert(all =~= so_far.tried);
    } else {
        let succeeds = (replies.insert)(from);
        let rest = left.drop_first();
        let next = if succeeds {
            EnqueueEventView::<E>::Inserted(rest)
        } else {
            EnqueueEventView::<E>::InsertFailed(rest)
        };
        let then = Adding { tried: so_far.tried.push((left[0], succeeds)), ..so_far };
        lemma_inserts_run(next, rest, template, is_recrawl, replies, then);
        assert(then.tried + outcomes(rest, replies.insert, then.tried.len()) =~= all);
    }
}

/// How a run ends once all lookups have told `indexed`.
pub open spec fn ends_with(
    urls: Seq<Seq<char>>,
    indexed: Seq<Seq<char>>,
    template: TaskTemplate,
    is_recrawl: bool,
    insert: spec_fn(nat) -> bool,
) -> (Option<Seq<char>>, Seq<(InsertBatchView, bool)>) {
    let known = known_urls(indexed, is_recrawl);
    match hostless_url(urls, known) {
        Some(url) => (Some(url), Seq::empty()),
        None => (None, outcomes(all_inserts(urls, known, template, is_recrawl), insert, 0)),
    }
}

/// Whether a run came to the end that the replies of the database call for.
pub open spec fn ended_right<E>(
    after: Adding<E>,
    plan: EnqueuePlanView,
    template: TaskTemplate,
    is_recrawl: bool,
    found: Result<Seq<Seq<char>>, E>,
    insert: spec_fn(nat) -> bool,
) -> bool {
    match found {
        Err(e) => after.end == Some(EnqueueEnd::Failed(e)) && after.tried.len() == 0,
        Ok(told) => {
            let (hostless, tried) = ends_with(
                plan.urls,
                plan.indexed + told,
                template,
                is_recrawl,
                insert,
            );
            &&& after.tried == tried
            &&& after.end == Some(
                match hostless {
                    Some(url) => EnqueueEnd::Hostless(url),
                    None => EnqueueEnd::<E>::Done,
                },
            )
        },
    }
}

proof fn lemma_lookups_run<E>(
    event: EnqueueEventView<E>,
    plan: EnqueuePlanView,
    template: TaskTemplate,
    is_recrawl: bool,
    replies: EnqueueReplies<E>,
    so_far: Adding<E>,
)
    requires
        enqueue_next(event, template, is_recrawl) == look_up_next::<E>(plan, template, is_recrawl),
        so_far.tried.len() == 0,
    ensures
        ended_right(
            run_enqueue(event, template, is_recrawl, replies, so_far),
            plan,
            template,
            is_recrawl,
            all_found(replies.lookup, so_far.looked_up, so_far.looked_up + plan.lookups.len()),
            replies.insert,
        ),
    decreases plan.lookups.len(),
{
    let from = so_far.looked_up;
    let to = from + plan.lookups.len();
    if plan.lookups.len() == 0 {
        let known = known_urls(plan.indexed, is_recrawl);
        assert(plan.indexed + Seq::<Seq<char>>::empty() =~= plan.indexed);
        if hostless_url(plan.urls, known) is None {
            let all = all_inserts(plan.urls, known, template, is_recrawl);
            lemma_inserts_run(event, all, template, is_recrawl, replies, so_far);
            assert(so_far.tried + outcomes(all, replies.insert, 0) =~= outcomes(
                all,
                replies.insert,
                0,
            ));
        } else {
            assert(so_far.tried =~= Seq::empty());
        }
    } else {
        let left = EnqueuePlanView { lookups: plan.lookups.drop_first(), ..plan };
        let then = Adding { looked_up: from + 1, ..so_far };
        match (replies.lookup)(from) {
            Ok(found) => {
                let next = EnqueueEventView::<E>::LookedUp(found, left);
                let more = EnqueuePlanView { indexed: left.indexed + found, ..left };
                lemma_lookups_run(next, more, template, is_recrawl, replies, then);
                match all_found(replies.lookup, from + 1, to) {
                    Ok(rest) => {
                        assert(more.indexed + rest =~= plan.indexed + (found + rest));
                    },
                    Err(_) => {},
                }
            },
            Err(e) => {
                reveal_with_fuel(run_enqueue, 2);
            },
        }
    }
}

/// Adding URLs comes to an end, and how is fixed by what the database answers:
/// the failure of a lookup is reported, and so is a URL without a host, both
/// before anything is inserted; else every statement is tried once and in order,
/// whatever becomes of the others, and adding the URLs succeeds.
pub proof fn law_enqueue_run<E>(
    plan: EnqueuePlanView,
    template: TaskTemplate,
    is_recrawl: bool,
    replies: EnqueueReplies<E>,
)
    ensures
        ended_right(
            enqueue_run(plan, template, is_recrawl, replies),
            plan,
            template,
            is_recrawl,
            all_found(replies.lookup, 0, plan.lookups.len()),
            replies.insert,
        ),
{
    lemma_lookups_run(
        EnqueueEventView::<E>::Start(plan),
        plan,
        template,
        is_recrawl,
        replies,
        Adding { looked_up: 0, tried: Seq::empty(), end: None },
    );
}

proof fn lemma_first_failure<E>(
    lookup: spec_fn(nat) -> Result<Seq<Seq<char>>, E>,
    from: nat,
    to: nat,
    k: nat,
)
    requires
        from <= k < to,
        lookup(k) is Err,
        forall|j: nat| from <= j < k ==> #[trigger] lookup(j) is Ok,
    ensures
        all_found(lookup, from, to) == Err::<Seq<Seq<char>>, E>(lookup(k)->Err_0),
    decreases to - from,
{
    if from < k {
        assert(lookup(from) is Ok);
        lemma_first_failure(lookup, from + 1, to, k);
    }
}

/// If a lookup fails, adding the URLs fails with the same error, and nothing is
/// inserted.
pub proof fn law_failed_lookup_inserts_nothing<E>(
    plan: EnqueuePlanView,
    template: TaskTemplate,
    is_recrawl: bool,
    replies: EnqueueReplies<E>,
    k: nat,
)
    requires
        k < plan.lookups.len(),
        (replies.lookup)(k) is Err,
        forall|j: nat| j < k ==> #[trigger] (replies.lookup)(j) is Ok,
    ensures
        ({
            let after = enqueue_run(plan, template, is_recrawl, replies);
            &&& after.end == Some(EnqueueEnd::Failed((replies.lookup)(k)->Err_0))
            &&& after.tried.len() == 0
        }),
{
    law_enqueue_run(plan, template, is_recrawl, replies);
    lemma_first_failure(replies.lookup, 0, plan.lookups.len(), k);
}

/// The tasks that the statements which succeeded have inserted, in order.
pub open spec fn stored(tried: Seq<(InsertBatchView, bool)>) -> Seq<ActiveModelView>
    decreases tried.len(),
{
    if tried.len() == 0 {
        Seq::empty()
    } else if tried.last().1 {
        stored(tried.drop_last()) + tried.last().0.rows
    } else {
        stored(tried.drop_last())
    }
}

proof fn lemma_stored(tried: Seq<(InsertBatchView, bool)>, k: int, row: ActiveModelView)
    requires
        0 <= k < tried.len(),
        tried[k].1,
        tried[k].0.rows.contains(row),
    ensures
        stored(tried).contains(row),
    decreases tried.len(),
{
    let before = stored(tried.drop_last());
    if k == tried.len() - 1 {
        let rows = tried.last().0.rows;
        let i = choose|i: int| 0 <= i < rows.len() && rows[i] == row;
        assert(stored(tried)[before.len() + i] == row);
    } else {
        lemma_stored(tried.drop_last(), k, row);
        let i = choose|i: int| 0 <= i < before.len() && before[i] == row;
        assert(stored(tried)[i] == row);
    }
}

proof fn lemma_stored_only(tried: Seq<(InsertBatchView, bool)>, row: ActiveModelView)
    requires
        stored(tried).contains(row),
    ensures
        exists|k: int| 0 <= k < tried.len() && (#[trigger] tried[k]).0.rows.contains(row),
    decreases tried.len(),
{
    let all = stored(tried);
    let before = stored(tried.drop_last());
    let i = choose|i: int| 0 <= i < all.len() && all[i] == row;
    if i < before.len() {
        assert(before[i] == row);
        lemma_stored_only(tried.drop_last(), row);
        let k = choose|k: int|
            0 <= k < tried.drop_last().len() && (#[trigger] tried.drop_last()[k]).0.rows.contains(
                row,
            );
        assert(tried[k] == tried.drop_last()[k]);
    } else {
        assert(tried.last().0.rows[i - before.len()] == row);
        assert(tried[tried.len() - 1].0.rows.contains(row));
    }
}

/// If no lookup fails and every URL has a host, adding the URLs succeeds though
/// statements may fail, and the tasks of every statement that did not are in the
/// queue afterwards.
pub proof fn law_failed_insert_stops_nothing<E>(
    plan: EnqueuePlanView,
    template: TaskTemplate,
    is_recrawl: bool,
    replies: EnqueueReplies<E>,
    indexed: Seq<Seq<char>>,
    tables: Seq<Table>,
)
    requires
        all_found(replies.lookup, 0, plan.lookups.len()) == Ok::<Seq<Seq<char>>, E>(indexed),
        hostless_url(plan.urls, known_urls(plan.indexed + indexed, is_recrawl)) is None,
        valid(tables[0]),
        all_inserted(
            tables,
            stored(enqueue_run(plan, template, is_recrawl, replies).tried),
            conflict_action(is_recrawl),
        ),
    ensures
        ({
            let after = enqueue_run(plan, template, is_recrawl, replies);
            let known = known_urls(plan.indexed + indexed, is_recrawl);
            let all = all_inserts(plan.urls, known, template, is_recrawl);
            &&& after.end == Some(EnqueueEnd::<E>::Done)
            &&& after.tried.len() == all.len()
            &&& forall|k: int|
                0 <= k < all.len() ==> (#[trigger] after.tried[k]) == (
                    all[k],
                    (replies.insert)(k as nat),
                )
            &&& valid(tables.last())
            &&& forall|k: int, row: ActiveModelView|
                0 <= k < all.len() && (replies.insert)(k as nat) && #[trigger] all[k].rows.contains(
                    row,
                ) ==> has_task(tables.last(), row, conflict_action(is_recrawl))
        }),
{
    law_enqueue_run(plan, template, is_recrawl, replies);
    let tried = enqueue_run(plan, template, is_recrawl, replies).tried;
    let known = known_urls(plan.indexed + indexed, is_recrawl);
    let tasks = tasks_for(plan.urls, known, template);
    let all = all_inserts(plan.urls, known, template, is_recrawl);
    let kept = stored(tried);
    assert forall|i: int| 0 <= i < kept.len() implies waits(#[trigger] kept[i], template.now) by {
        lemma_stored_only(tried, kept[i]);
        let k = choose|k: int|
            0 <= k < tried.len() && (#[trigger] tried[k]).0.rows.contains(kept[i]);
        assert(all[k].rows == batches(tasks, BATCH_SIZE as nat)[k]);
        lemma_batch_is_part(tasks, BATCH_SIZE as nat, k, kept[i]);
        law_added_tasks_are_queued(plan.urls, known, template, kept[i]);
    }
    law_inserted_urls_are_in_the_queue(tables, kept, conflict_action(is_recrawl), template.now);
    assert forall|k: int, row: ActiveModelView|
        0 <= k < all.len() && (replies.insert)(k as nat) && #[trigger] all[k].rows.contains(
            row,
        ) implies has_task(tables.last(), row, conflict_action(is_recrawl)) by {
        assert(tried[k] == (all[k], true));
        lemma_stored(tried, k, row);
        let i = choose|i: int| 0 <= i < kept.len() && kept[i] == row;
        assert(has_task(tables.last(), kept[i], conflict_action(is_recrawl)));
    }
}

/// How the database replies to what it is asked while URLs are added.
pub struct IndexReplies<E> {
    /// Which of the URLs that are looked up are indexed.
    pub lookup: spec_fn(Seq<Seq<char>>) -> Result<Seq<Seq<char>>, E>,
    /// Whether a statement succeeds.
    pub insert: spec_fn(InsertBatchView) -> bool,
}

/// Whether every lookup that does not fail tells those of the URLs asked about
/// that are in the index.
pub open spec fn truthful<E>(replies: IndexReplies<E>, index: Set<Seq<char>>) -> bool {
    forall|batch: Seq<Seq<char>>|
        (#[trigger] (replies.lookup)(batch)) matches Ok(found) ==> forall|url: Seq<char>|
            #[trigger] found.contains(url) <==> batch.contains(url) && index.contains(url)
}

/// How far adding URLs with an index has come.
pub struct IndexRun<E> {
    /// Why a lookup failed.
    pub failed: Option<E>,
    /// The statements that were tried, and whether each succeeded.
    pub tried: Seq<(InsertBatchView, bool)>,
    /// How it ended.
    pub end: Option<EnqueueEnd<E>>,
}

/// Runs `enqueue_step` from an event on, with replies to what is asked.
pub open spec fn run_with_index<E>(
    event: EnqueueEventView<E>,
    template: TaskTemplate,
    is_recrawl: bool,
    replies: IndexReplies<E>,
    run: IndexRun<E>,
) -> IndexRun<E>
    decreases phase(event), left_of(event),
{
    match enqueue_next(event, template, is_recrawl) {
        EnqueueActionView::LookUp(urls, plan) => match (replies.lookup)(urls) {
            Ok(found) => run_with_index(
                EnqueueEventView::LookedUp(found, plan),
                template,
                is_recrawl,
                replies,
                run,
            ),
            Err(e) => run_with_index(
                EnqueueEventView::LookupFailed(e),
                template,
                is_recrawl,
                replies,
                IndexRun { failed: Some(e), ..run },
            ),
        },
        EnqueueActionView::Insert(batch, left) => {
            let succeeds = (replies.insert)(batch);
            run_with_index(
                if succeeds {
                    EnqueueEventView::Inserted(left)
                } else {
                    EnqueueEventView::InsertFailed(left)
                },
                template,
                is_recrawl,
                replies,
                IndexRun { tried: run.tried.push((batch, succeeds)), ..run },
            )
        },
        EnqueueActionView::Return => IndexRun { end: Some(EnqueueEnd::Done), ..run },
        EnqueueActionView::Hostless(url) => IndexRun {
            end: Some(EnqueueEnd::Hostless(url)),
            ..run
        },
        EnqueueActionView::Fail(e) => IndexRun { end: Some(EnqueueEnd::Failed(e)), ..run },
    }
}

/// The statements with the outcome of each.
pub open spec fn tries(
    left: Seq<InsertBatchView>,
    insert: spec_fn(InsertBatchView) -> bool,
) -> Seq<(InsertBatchView, bool)> {
    left.map_values(|batch: InsertBatchView| (batch, insert(batch)))
}

proof fn lemma_index_inserts<E>(
    event: EnqueueEventView<E>,
    left: Seq<InsertBatchView>,
    template: TaskTemplate,
    is_recrawl: bool,
    replies: IndexReplies<E>,
    run: IndexRun<E>,
)
    requires
        enqueue_next(event, template, is_recrawl) == insert_next::<E>(left),
    ensures
        run_with_index(event, template, is_recrawl, replies, run) == (IndexRun {
            tried: run.tried + tries(left, replies.insert),
            end: Some(EnqueueEnd::Done),
            ..run
        }),
    decreases left.len(),
{
    let all = run.tried + tries(left, replies.insert);
    if left.len() == 0 {
        assert(all =~= run.tried);
    } else {
        let succeeds = (replies.insert)(left[0]);
        let rest = left.drop_first();
        let next = if succeeds {
            EnqueueEventView::<E>::Inserted(rest)
        } else {
            EnqueueEventView::<E>::InsertFailed(rest)
        };
        let then = IndexRun { tried: run.tried.push((left[0], succeeds)), ..run };
        lemma_index_inserts(next, rest, template, is_recrawl, replies, then);
        assert(then.tried + tries(rest, replies.insert) =~= all);
    }
}

/// Whether a URL stands in one of the lookups.
pub open spec fn asked(lookups: Seq<Seq<Seq<char>>>, url: Seq<char>) -> bool {
    exists|k: int| 0 <= k < lookups.len() && (#[trigger] lookups[k]).contains(url)
}

/// Whether `told` holds what was told before, and what the index has of the URLs
/// in the lookups.
pub open spec fn tells(
    told: Seq<Seq<char>>,
    before: Seq<Seq<char>>,
    lookups: Seq<Seq<Seq<char>>>,
    index: Set<Seq<char>>,
) -> bool {
    forall|url: Seq<char>| #[trigger]
        told.contains(url) <==> before.contains(url) || (index.contains(url) && asked(lookups, url))
}

/// Whether a run has ended as it must once the lookups have told `told`.
pub open spec fn ended_after<E>(
    run: IndexRun<E>,
    urls: Seq<Seq<char>>,
    told: Seq<Seq<char>>,
    template: TaskTemplate,
    is_recrawl: bool,
    insert: spec_fn(InsertBatchView) -> bool,
) -> bool {
    let known = known_urls(told, is_recrawl);
    match hostless_url(urls, known) {
        Some(url) => run.end == Some(EnqueueEnd::<E>::Hostless(url)) && run.tried.len() == 0,
        None => run.end == Some(EnqueueEnd::<E>::Done) && run.tried == tries(
            all_inserts(urls, known, template, is_recrawl),
            insert,
        ),
    }
}

proof fn lemma_index_lookups<E>(
    event: EnqueueEventView<E>,
    plan: EnqueuePlanView,
    index: Set<Seq<char>>,
    template: TaskTemplate,
    is_recrawl: bool,
    replies: IndexReplies<E>,
    run: IndexRun<E>,
)
    requires
        enqueue_next(event, template, is_recrawl) == look_up_next::<E>(plan, template, is_recrawl),
        run.tried.len() == 0,
        run.failed is None,
        truthful(replies, index),
    ensures
        ({
            let after = run_with_index(event, template, is_recrawl, replies, run);
            if after.failed is Some {
                after.end == Some(EnqueueEnd::Failed(after.failed->0)) && after.tried.len() == 0
            } else {
                exists|told: Seq<Seq<char>>| #[trigger]
                    tells(told, plan.indexed, plan.lookups, index) && ended_after(
                        after,
                        plan.urls,
                        told,
                        template,
                        is_recrawl,
                        replies.insert,
                    )
            }
        }),
    decreases plan.lookups.len(),
{
    let after = run_with_index(event, template, is_recrawl, replies, run);
    if plan.lookups.len() == 0 {
        let known = known_urls(plan.indexed, is_recrawl);
        assert(tells(plan.indexed, plan.indexed, plan.lookups, index));
        if hostless_url(plan.urls, known) is None {
            let all = all_inserts(plan.urls, known, template, is_recrawl);
            lemma_index_inserts(event, all, template, is_recrawl, replies, run);
            assert(run.tried + tries(all, replies.insert) =~= tries(all, replies.insert));
        }
        assert(ended_after(
            after,
            plan.urls,
            plan.indexed,
            template,
            is_recrawl,
            replies.insert,
        ));
    } else {
        let batch = plan.lookups[0];
        let left = EnqueuePlanView { lookups: plan.lookups.drop_first(), ..plan };
        match (replies.lookup)(batch) {
            Ok(found) => {
                let next = EnqueueEventView::<E>::LookedUp(found, left);
                let more = EnqueuePlanView { indexed: left.indexed + found, ..left };
                lemma_index_lookups(next, more, index, template, is_recrawl, replies, run);
                assert(after == run_with_index(next, template, is_recrawl, replies, run));
                if after.failed is None {
                    let told = choose|told: Seq<Seq<char>>| #[trigger]
                        tells(told, more.indexed, more.lookups, index) && ended_after(
                            after,
                            more.urls,
                            told,
                            template,
                            is_recrawl,
                            replies.insert,
                        );
                    assert forall|url: Seq<char>| #[trigger]
                        told.contains(url) <==> plan.indexed.contains(url) || (index.contains(url)
                            && asked(plan.lookups, url)) by {
                        lemma_either_contains(plan.indexed, found, url);
                        assert(found.contains(url) <==> batch.contains(url) && index.contains(url));
                        lemma_asked(plan.lookups, url);
                    }
                    assert(tells(told, plan.indexed, plan.lookups, index));
                }
            },
            Err(e) => {
                reveal_with_fuel(run_with_index, 2);
            },
        }
    }
}

proof fn lemma_either_contains(a: Seq<Seq<char>>, b: Seq<Seq<char>>, url: Seq<char>)
    ensures
        (a + b).contains(url) <==> a.contains(url) || b.contains(url),
{
    if a.contains(url) {
        let k = choose|k: int| 0 <= k < a.len() && a[k] == url;
        assert((a + b)[k] == url);
    }
    if b.contains(url) {
        let k = choose|k: int| 0 <= k < b.len() && b[k] == url;
        assert((a + b)[a.len() + k] == url);
    }
}

proof fn lemma_asked(lookups: Seq<Seq<Seq<char>>>, url: Seq<char>)
    requires
        lookups.len() > 0,
    ensures
        asked(lookups, url) <==> lookups[0].contains(url) || asked(lookups.drop_first(), url),
{
    if asked(lookups, url) {
        let k = choose|k: int| 0 <= k < lookups.len() && (#[trigger] lookups[k]).contains(url);
        if k > 0 {
            assert(lookups.drop_first()[k - 1].contains(url));
        }
    }
    if asked(lookups.drop_first(), url) {
        let rest = lookups.drop_first();
        let k = choose|k: int| 0 <= k < rest.len() && (#[trigger] rest[k]).contains(url);
        assert(lookups[k + 1].contains(url));
    }
}

proof fn lemma_tasks_agree(
    urls: Seq<Seq<char>>,
    a: Set<Seq<char>>,
    b: Set<Seq<char>>,
    template: TaskTemplate,
)
    requires
        forall|i: int| 0 <= i < urls.len() ==> a.contains(#[trigger] urls[i]) == b.contains(urls[i]),
    ensures
        tasks_for(urls, a, template) == tasks_for(urls, b, template),
    decreases urls.len(),
{
    if urls.len() > 0 {
        let init = urls.drop_last();
        assert forall|i: int| 0 <= i < init.len() implies a.contains(#[trigger] init[i])
            == b.contains(init[i]) by {
            assert(init[i] == urls[i]);
        }
        lemma_tasks_agree(init, a, b, template);
        assert(urls[urls.len() - 1] == urls.last());
    }
}

/// Whether a task is wanted for the URL at `i`, but it is no file and has no
/// host.
pub open spec fn lacks_place(
    urls: Seq<Seq<char>>,
    index: Set<Seq<char>>,
    is_recrawl: bool,
    i: int,
) -> bool {
    &&& 0 <= i < urls.len()
    &&& is_recrawl || !index.contains(urls[i])
    &&& parsed_url(urls[i]) matches Some(u) && !has_place(u)
}

/// The tasks of the statements that were tried, one after the other.
pub open spec fn all_rows(tried: Seq<(InsertBatchView, bool)>) -> Seq<ActiveModelView> {
    tried.map_values(|t: (InsertBatchView, bool)| t.0.rows).flatten()
}

/// A run of `enqueue_step` for URLs that have passed the filter.
pub open spec fn index_run<E>(
    urls: Seq<Seq<char>>,
    template: TaskTemplate,
    is_recrawl: bool,
    replies: IndexReplies<E>,
) -> IndexRun<E> {
    run_with_index(
        EnqueueEventView::Start(
            EnqueuePlanView {
                urls,
                lookups: index_lookups(urls, is_recrawl),
                indexed: Seq::empty(),
            },
        ),
        template,
        is_recrawl,
        replies,
        IndexRun { failed: None, tried: Seq::empty(), end: None },
    )
}

/// With a database that tells truthfully what is indexed, adding URLs inserts, in
/// order, a task for each of them that is not indexed, or for each of them if they
/// are crawled again. A statement takes at most five thousand tasks, and none is
/// left out because another failed. If a lookup fails or a URL has no host, that
/// is reported and nothing is inserted.
pub proof fn law_adding_with_an_index<E>(
    urls: Seq<Seq<char>>,
    index: Set<Seq<char>>,
    template: TaskTemplate,
    is_recrawl: bool,
    replies: IndexReplies<E>,
)
    requires
        truthful(replies, index),
    ensures
        ({
            let run = index_run(urls, template, is_recrawl, replies);
            if run.failed is Some {
                run.end == Some(EnqueueEnd::Failed(run.failed->0)) && run.tried.len() == 0
            } else if exists|i: int| lacks_place(urls, index, is_recrawl, i) {
                &&& run.tried.len() == 0
                &&& exists|i: int| #[trigger]
                    lacks_place(urls, index, is_recrawl, i) && run.end == Some(
                        EnqueueEnd::<E>::Hostless(urls[i]),
                    ) && forall|j: int| 0 <= j < i ==> !lacks_place(urls, index, is_recrawl, j)
            } else {
                &&& run.end == Some(EnqueueEnd::<E>::Done)
                &&& all_rows(run.tried) == tasks_for(
                    urls,
                    if is_recrawl {
                        Set::empty()
                    } else {
                        index
                    },
                    template,
                )
                &&& forall|k: int|
                    0 <= k < run.tried.len() ==> {
                        &&& 0 < (#[trigger] run.tried[k]).0.rows.len() <= 5_000
                        &&& k < run.tried.len() - 1 ==> run.tried[k].0.rows.len() == 5_000
                        &&& run.tried[k].0.on_conflict == if is_recrawl {
                            OnConflict::UpdateStatus
                        } else {
                            OnConflict::DoNothing
                        }
                        &&& run.tried[k].1 == (replies.insert)(run.tried[k].0)
                    }
            }
        }),
{
    let run = index_run(urls, template, is_recrawl, replies);
    let plan = EnqueuePlanView {
        urls,
        lookups: index_lookups(urls, is_recrawl),
        indexed: Seq::empty(),
    };
    lemma_index_lookups(
        EnqueueEventView::<E>::Start(plan),
        plan,
        index,
        template,
        is_recrawl,
        replies,
        IndexRun { failed: None, tried: Seq::empty(), end: None },
    );
    if run.failed is None {
        let told = choose|told: Seq<Seq<char>>| #[trigger]
            tells(told, plan.indexed, plan.lookups, index) && ended_after(
                run,
                urls,
                told,
                template,
                is_recrawl,
                replies.insert,
            );
        let known = known_urls(told, is_recrawl);
        let expected = if is_recrawl {
            Set::empty()
        } else {
            index
        };
        assert forall|i: int| 0 <= i < urls.len() implies known.contains(#[trigger] urls[i])
            == expected.contains(urls[i]) by {
            if !is_recrawl {
                lemma_part_is_in_a_batch(urls, BATCH_SIZE as nat, i);
                assert(asked(plan.lookups, urls[i]));
                assert(known.contains(urls[i]) <==> told.contains(urls[i]));
                assert(!plan.indexed.contains(urls[i]));
            }
        }
        assert forall|i: int| 0 <= i < urls.len() implies #[trigger] hostless_at(urls, known, i)
            == lacks_place(urls, index, is_recrawl, i) by {
            assert(known.contains(urls[i]) == expected.contains(urls[i]));
        }
        lemma_tasks_agree(urls, known, expected, template);
        match hostless_url(urls, known) {
            Some(_) => {
                let i = choose|i: int| first_hostless(urls, known, i);
                assert(hostless_at(urls, known, i));
                assert(lacks_place(urls, index, is_recrawl, i));
                assert forall|j: int| 0 <= j < i implies !lacks_place(
                    urls,
                    index,
                    is_recrawl,
                    j,
                ) by {
                    assert(!hostless_at(urls, known, j));
                }
            },
            None => {
                assert forall|i: int| !lacks_place(urls, index, is_recrawl, i) by {
                    if lacks_place(urls, index, is_recrawl, i) {
                        assert(hostless_at(urls, known, i));
                        lemma_some_first_hostless(urls, known, i);
                    }
                }
                let tasks = tasks_for(urls, known, template);
                let cut = batches(tasks, BATCH_SIZE as nat);
                law_batches_are_the_list(tasks, BATCH_SIZE as nat);
                law_statements_are_full(tasks);
                assert(run.tried.map_values(|t: (InsertBatchView, bool)| t.0.rows) =~= cut);
                assert forall|k: int| 0 <= k < run.tried.len() implies {
                    &&& 0 < (#[trigger] run.tried[k]).0.rows.len() <= 5_000
                    &&& k < run.tried.len() - 1 ==> run.tried[k].0.rows.len() == 5_000
                } by {
                    assert(run.tried[k].0.rows == cut[k]);
                }
            },
        }
    }
}

proof fn lemma_some_first_hostless(urls: Seq<Seq<char>>, known: Set<Seq<char>>, i: int)
    requires
        0 <= i < urls.len(),
        hostless_at(urls, known, i),
    ensures
        exists|k: int| first_hostless(urls, known, k),
    decreases i,
{
    if exists|j: int| 0 <= j < i && hostless_at(urls, known, j) {
        let j = choose|j: int| 0 <= j < i && hostless_at(urls, known, j);
        lemma_some_first_hostless(urls, known, j);
    } else {
        assert(first_hostless(urls, known, i));
    }
}

/// With such a database, every URL that is not indexed, or every one that is
/// crawled again, is in one of the statements if it can be parsed and is a file or
/// has a host, unless a lookup fails or some URL has no host.
pub proof fn law_missing_urls_are_inserted<E>(
    urls: Seq<Seq<char>>,
    index: Set<Seq<char>>,
    template: TaskTemplate,
    is_recrawl: bool,
    replies: IndexReplies<E>,
    i: int,
)
    requires
        truthful(replies, index),
        index_run(urls, template, is_recrawl, replies).failed is None,
        forall|j: int| !lacks_place(urls, index, is_recrawl, j),
        0 <= i < urls.len(),
        is_recrawl || !index.contains(urls[i]),
        parsed_url(urls[i]) is Some,
    ensures
        exists|k: int|
            0 <= k < all_rows(index_run(urls, template, is_recrawl, replies).tried).len()
                && is_task_for(
                #[trigger] all_rows(index_run(urls, template, is_recrawl, replies).tried)[k],
                urls[i],
                parsed_url(urls[i])->0,
                template,
            ),
{
    law_adding_with_an_index(urls, index, template, is_recrawl, replies);
    assert(!lacks_place(urls, index, is_recrawl, i));
    law_every_missing_url_gets_a_task(
        urls,
        if is_recrawl {
            Set::empty()
        } else {
            index
        },
        template,
        i,
    );
}

/// The view of a statement has its conflict action and the columns of all its
/// tasks, in order.
pub proof fn law_statement_view(batch: InsertBatch)
    ensures
        batch@.on_conflict == batch.on_conflict,
        batch@.rows.len() == batch.rows@.len(),
        forall|i: int| 0 <= i < batch.rows@.len() ==> #[trigger] batch@.rows[i] == batch.rows@[i]@,
{
}

} // verus!
