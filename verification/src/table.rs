//! The table that holds the queue, as a mathematical object: what a faithful
//! database answers to a query, and what a write does to the rows.
use vstd::prelude::*;

use crate::enqueue::OnConflict;
use crate::query::{like, TaskQueryView, UrlMatchView};
use crate::task::{ActiveModelView, CrawlStatus, CrawlType, ModelView, QueueCountView};

verus! {

/// The rows of the queue by their ids.
pub type Table = Map<int, ModelView>;

/// A table that the database can hold: finitely many rows, each under its own
/// id, and no two with the same URL.
pub open spec fn valid(table: Table) -> bool {
    &&& table.dom().finite()
    &&& forall|id: int| #[trigger] table.contains_key(id) ==> table[id].id == id
    &&& forall|a: int, b: int|
        #![trigger table.contains_key(a), table.contains_key(b)]
        table.contains_key(a) && table.contains_key(b) && table[a].url == table[b].url ==> a == b
}

/// The ids of the rows that a query selects.
pub open spec fn selected(table: Table, query: TaskQueryView) -> Set<int> {
    table.dom().filter(|id: int| query.selects(table[id]))
}

/// Whether `reply` is a faithful answer to a query for one row.
pub open spec fn answers(table: Table, query: TaskQueryView, reply: Option<ModelView>) -> bool {
    match reply {
        Some(row) => {
            &&& selected(table, query).contains(row.id)
            &&& table[row.id] == row
            &&& query.oldest_update_first ==> forall|id: int|
                #[trigger] selected(table, query).contains(id) ==> row.updated_at
                    <= table[id].updated_at
        },
        None => forall|id: int| !selected(table, query).contains(id),
    }
}

/// Whether a row is one of those that an entry of the statistics counts.
pub open spec fn counts(entry: QueueCountView, row: ModelView) -> bool {
    row.domain == entry.domain && row.status.text() == entry.status
}

/// The ids of the rows that an entry of the statistics counts.
pub open spec fn counted(table: Table, entry: QueueCountView) -> Set<int> {
    table.dom().filter(|id: int| counts(entry, table[id]))
}

/// Whether `reply` is a faithful answer to the statement that counts the tasks
/// of each domain by their status: one entry for each pair of a domain and a
/// status that occurs, with the number of its tasks.
pub open spec fn answers_stats(table: Table, reply: Seq<QueueCountView>) -> bool {
    &&& forall|i: int|
        0 <= i < reply.len() ==> 0 < (#[trigger] reply[i]).count == counted(table, reply[i]).len()
    &&& forall|i: int, j: int|
        0 <= i < j < reply.len() ==> (#[trigger] reply[i]).domain != (#[trigger] reply[j]).domain
            || reply[i].status != reply[j].status
    &&& forall|id: int| #[trigger]
        table.contains_key(id) ==> exists|i: int|
            0 <= i < reply.len() && counts(#[trigger] reply[i], table[id])
}

/// How many tasks the entries of the statistics count together.
pub open spec fn total(reply: Seq<QueueCountView>) -> int
    decreases reply.len(),
{
    if reply.len() == 0 {
        0
    } else {
        total(reply.drop_last()) + reply.last().count
    }
}

/// The statistics of a faithful database count every task exactly once.
pub proof fn law_stats_count_every_task(table: Table, reply: Seq<QueueCountView>)
    requires
        valid(table),
        answers_stats(table, reply),
    ensures
        total(reply) == table.dom().len(),
    decreases reply.len(),
{
    if reply.len() == 0 {
        assert(table.dom() =~= Set::empty());
    } else {
        let last = reply.last();
        let init = reply.drop_last();
        let gone = counted(table, last);
        let rest = table.remove_keys(gone);
        assert(rest.dom() =~= table.dom().difference(gone));
        assert(valid(rest)) by {
            assert forall|a: int, b: int|
                #![trigger rest.contains_key(a), rest.contains_key(b)]
                rest.contains_key(a) && rest.contains_key(b) && rest[a].url
                    == rest[b].url implies a == b by {
                assert(table.contains_key(a) && table.contains_key(b));
            }
            assert forall|id: int| #[trigger] rest.contains_key(id) implies rest[id].id == id by {
                assert(table.contains_key(id));
            }
        }
        assert forall|i: int| 0 <= i < init.len() implies 0 < (#[trigger] init[i]).count == counted(
            rest,
            init[i],
        ).len() by {
            assert(init[i] == reply[i]);
            assert(reply[reply.len() - 1] == last);
            assert(counted(rest, init[i]) =~= counted(table, reply[i]));
        }
        assert forall|i: int, j: int| 0 <= i < j < init.len() implies (#[trigger] init[i]).domain
            != (#[trigger] init[j]).domain || init[i].status != init[j].status by {
            assert(init[i] == reply[i] && init[j] == reply[j]);
        }
        assert forall|id: int| #[trigger] rest.contains_key(id) implies exists|i: int|
            0 <= i < init.len() && counts(#[trigger] init[i], rest[id]) by {
            assert(table.contains_key(id));
            let i = choose|i: int| 0 <= i < reply.len() && counts(#[trigger] reply[i], table[id]);
            assert(!gone.contains(id));
            assert(init[i] == reply[i]);
        }
        law_stats_count_every_task(rest, init);
        assert(gone.subset_of(table.dom()));
        vstd::set_lib::lemma_len_subset(gone, table.dom());
        vstd::set_lib::lemma_set_disjoint_lens(gone, rest.dom());
        assert(gone + rest.dom() =~= table.dom());
    }
}

/// The row after the columns that are set have been written.
pub open spec fn written(row: ModelView, update: ActiveModelView) -> ModelView {
    ModelView {
        id: row.id,
        domain: match update.domain {
            Some(domain) => domain,
            None => row.domain,
        },
        url: match update.url {
            Some(url) => url,
            None => row.url,
        },
        status: match update.status {
            Some(status) => status,
            None => row.status,
        },
        error: row.error,
        data: row.data,
        num_retries: match update.num_retries {
            Some(n) => n,
            None => row.num_retries,
        },
        crawl_type: match update.crawl_type {
            Some(crawl_type) => crawl_type,
            None => row.crawl_type,
        },
        created_at: match update.created_at {
            Some(created_at) => created_at,
            None => row.created_at,
        },
        updated_at: match update.updated_at {
            Some(updated_at) => updated_at,
            None => row.updated_at,
        },
        pipeline: match update.pipeline {
            Some(pipeline) => pipeline,
            None => row.pipeline,
        },
    }
}

/// The table after an update at the instant `now`. The hook before every save
/// has dated it.
pub open spec fn updated(table: Table, update: ActiveModelView, now: int) -> Table {
    match update.id {
        Some(id) => if table.contains_key(id) {
            table.insert(id, written(table[id], update.stamped(false, now)))
        } else {
            table
        },
        None => table,
    }
}

/// The table after a change of the status of all rows that are meant, at the
/// instant `now`.
pub open spec fn all_updated(
    table: Table,
    filter: TaskQueryView,
    status: CrawlStatus,
    now: int,
) -> Table {
    table.map_values(
        |row: ModelView|
            if filter.selects(row) {
                ModelView { status, updated_at: now, ..row }
            } else {
                row
            },
    )
}

/// The table without the row `id`.
pub open spec fn deleted(table: Table, id: int) -> Table {
    table.remove(id)
}

/// The table without the rows that are meant.
pub open spec fn all_deleted(table: Table, filter: TaskQueryView) -> Table {
    table.remove_keys(selected(table, filter))
}

/// The row that an insert makes of the columns that are set, under a new id.
pub open spec fn inserted_row(id: int, row: ActiveModelView) -> ModelView {
    written(
        ModelView {
            id,
            domain: Seq::empty(),
            url: Seq::empty(),
            status: CrawlStatus::Queued,
            error: None,
            data: None,
            num_retries: 0,
            crawl_type: CrawlType::Normal,
            created_at: 0,
            updated_at: 0,
            pipeline: None,
        },
        row,
    )
}

/// Whether the row `id` has the URL of the new row.
pub open spec fn conflicts(table: Table, id: int, row: ActiveModelView) -> bool {
    table.contains_key(id) && Some(table[id].url) == row.url
}

/// Whether `after` is the table `before` once a row has been inserted.
pub open spec fn inserted(
    before: Table,
    after: Table,
    row: ActiveModelView,
    on_conflict: OnConflict,
) -> bool {
    if exists|id: int| conflicts(before, id, row) {
        let id = choose|id: int| conflicts(before, id, row);
        match on_conflict {
            OnConflict::DoNothing => after == before,
            OnConflict::UpdateStatus => after == before.insert(
                id,
                written(
                    before[id],
                    ActiveModelView {
                        status: row.status,
                        updated_at: row.updated_at,
                        ..ActiveModelView::untouched(Some(id))
                    },
                ),
            ),
        }
    } else {
        exists|id: int| !before.contains_key(id) && after == before.insert(
            id,
            #[trigger] inserted_row(id, row),
        )
    }
}

/// Inserting a task keeps the table one that a database can hold: no URL is in
/// the queue twice.
pub proof fn law_insert_keeps_urls_unique(
    before: Table,
    after: Table,
    row: ActiveModelView,
    on_conflict: OnConflict,
)
    requires
        valid(before),
        row.url is Some,
        inserted(before, after, row, on_conflict),
    ensures
        valid(after),
{
    if exists|id: int| conflicts(before, id, row) {
        let id = choose|id: int| conflicts(before, id, row);
        assert(before.insert(id, after[id]).dom() =~= before.dom());
    } else {
        let new = choose|id: int|
            !before.contains_key(id) && after == before.insert(
                id,
                #[trigger] inserted_row(id, row),
            );
        assert forall|a: int, b: int|
            #![trigger after.contains_key(a), after.contains_key(b)]
            after.contains_key(a) && after.contains_key(b) && after[a].url
                == after[b].url implies a == b by {
            assert(!conflicts(before, a, row) && !conflicts(before, b, row));
            if a != new && b != new {
                assert(before.contains_key(a) && before.contains_key(b));
            }
        }
    }
}

/// After inserting a task its URL is in the queue. The other tasks stay as they
/// were.
pub proof fn law_insert_adds_the_url(
    before: Table,
    after: Table,
    row: ActiveModelView,
    on_conflict: OnConflict,
)
    requires
        valid(before),
        row.url is Some,
        inserted(before, after, row, on_conflict),
    ensures
        exists|id: int| conflicts(after, id, row),
        forall|id: int|
            before.contains_key(id) && !conflicts(before, id, row) ==> #[trigger] after.contains_key(
                id,
            ) && after[id] == before[id],
        forall|id: int|
            conflicts(before, id, row) ==> #[trigger] after.contains_key(id) && after[id] == (
            match on_conflict {
                OnConflict::DoNothing => before[id],
                OnConflict::UpdateStatus => ModelView {
                    status: match row.status {
                        Some(status) => status,
                        None => before[id].status,
                    },
                    updated_at: match row.updated_at {
                        Some(updated_at) => updated_at,
                        None => before[id].updated_at,
                    },
                    ..before[id]
                },
            }),
{
    if exists|id: int| conflicts(before, id, row) {
        let id = choose|id: int| conflicts(before, id, row);
        assert(conflicts(after, id, row));
        assert forall|other: int| conflicts(before, other, row) implies other == id by {
            assert(before.contains_key(other) && before.contains_key(id));
        }
    } else {
        let id = choose|id: int|
            !before.contains_key(id) && after == before.insert(
                id,
                #[trigger] inserted_row(id, row),
            );
        assert(conflicts(after, id, row));
    }
}

/// Adding a URL that is in the queue already changes nothing, unless it is to
/// be crawled again.
pub proof fn law_insert_is_idempotent(
    before: Table,
    once: Table,
    twice: Table,
    row: ActiveModelView,
)
    requires
        valid(before),
        row.url is Some,
        inserted(before, once, row, OnConflict::DoNothing),
        inserted(once, twice, row, OnConflict::DoNothing),
    ensures
        twice == once,
{
    law_insert_adds_the_url(before, once, row, OnConflict::DoNothing);
}

/// Whether the tables come about one after the other by inserting the rows.
pub open spec fn all_inserted(
    tables: Seq<Table>,
    rows: Seq<ActiveModelView>,
    on_conflict: OnConflict,
) -> bool {
    &&& tables.len() == rows.len() + 1
    &&& forall|i: int|
        0 <= i < rows.len() ==> inserted(tables[i], tables[i + 1], #[trigger] rows[i], on_conflict)
}

/// Whether a new row waits to be crawled since the instant `now`.
pub open spec fn waits(row: ActiveModelView, now: int) -> bool {
    row.url is Some && row.status == Some(CrawlStatus::Queued) && row.updated_at == Some(now)
}

/// Whether a task with the URL is in the queue; where URLs are to be crawled
/// again, one that waits to be crawled and has the date of the new row.
pub open spec fn has_task(table: Table, row: ActiveModelView, on_conflict: OnConflict) -> bool {
    exists|id: int| #[trigger]
        conflicts(table, id, row) && (on_conflict == OnConflict::UpdateStatus ==> table[id].status
            == CrawlStatus::Queued && Some(table[id].updated_at) == row.updated_at)
}

/// Once tasks that wait to be crawled have been inserted at the instant `now`,
/// every one of their URLs is in the queue and none twice; where they are to be
/// crawled again, all of them wait to be crawled and are dated, and else no task
/// that was there before has changed.
pub proof fn law_inserted_urls_are_in_the_queue(
    tables: Seq<Table>,
    rows: Seq<ActiveModelView>,
    on_conflict: OnConflict,
    now: int,
)
    requires
        valid(tables[0]),
        all_inserted(tables, rows, on_conflict),
        forall|i: int| 0 <= i < rows.len() ==> waits(#[trigger] rows[i], now),
    ensures
        valid(tables.last()),
        forall|i: int|
            0 <= i < rows.len() ==> has_task(tables.last(), #[trigger] rows[i], on_conflict),
        on_conflict == OnConflict::DoNothing ==> forall|id: int| #[trigger]
            tables[0].contains_key(id) ==> tables.last().contains_key(id) && tables.last()[id]
                == tables[0][id],
    decreases rows.len(),
{
    if rows.len() > 0 {
        let n = rows.len() - 1;
        let init = rows.drop_last();
        let tables_before = tables.drop_last();
        let before = tables[n];
        let after = tables[n + 1];
        let row = rows[n];
        assert forall|i: int| 0 <= i < init.len() implies inserted(
            tables_before[i],
            tables_before[i + 1],
            #[trigger] init[i],
            on_conflict,
        ) by {
            assert(init[i] == rows[i]);
        }
        assert forall|i: int| 0 <= i < init.len() implies waits(#[trigger] init[i], now) by {
            assert(init[i] == rows[i]);
        }
        law_inserted_urls_are_in_the_queue(tables_before, init, on_conflict, now);
        law_insert_keeps_urls_unique(before, after, row, on_conflict);
        law_insert_adds_the_url(before, after, row, on_conflict);
        assert forall|i: int| 0 <= i < rows.len() implies has_task(
            after,
            #[trigger] rows[i],
            on_conflict,
        ) by {
            if i < n {
                assert(init[i] == rows[i]);
                let id = choose|id: int| #[trigger]
                    conflicts(before, id, rows[i]) && (on_conflict == OnConflict::UpdateStatus
                        ==> before[id].status == CrawlStatus::Queued && Some(before[id].updated_at)
                        == rows[i].updated_at);
                assert(before.contains_key(id));
                assert(after.contains_key(id));
                assert(conflicts(after, id, rows[i]));
            } else {
                lemma_inserted_is_queued(before, after, row, on_conflict, now);
            }
        }
        assert forall|id: int|
            on_conflict == OnConflict::DoNothing && #[trigger] tables[0].contains_key(
                id,
            ) implies after.contains_key(id) && after[id] == tables[0][id] by {
            assert(tables_before[0] == tables[0]);
            assert(before.contains_key(id) && before[id] == tables[0][id]);
            assert(after.contains_key(id));
        }
    }
}

proof fn lemma_inserted_is_queued(
    before: Table,
    after: Table,
    row: ActiveModelView,
    on_conflict: OnConflict,
    now: int,
)
    requires
        valid(before),
        waits(row, now),
        inserted(before, after, row, on_conflict),
    ensures
        has_task(after, row, on_conflict),
{
    law_insert_adds_the_url(before, after, row, on_conflict);
    if exists|id: int| conflicts(before, id, row) {
        let id = choose|id: int| conflicts(before, id, row);
        assert(after.contains_key(id));
        assert(conflicts(after, id, row));
    } else {
        let id = choose|id: int|
            !before.contains_key(id) && after == before.insert(
                id,
                #[trigger] inserted_row(id, row),
            );
        assert(conflicts(after, id, row));
    }
}

/// Resetting leaves no task in progress: those that were are queued and dated,
/// and all others stay as they were.
pub proof fn law_reset_leaves_none_in_progress(table: Table, now: int)
    ensures
        ({
            let processing = TaskQueryView::with_status(CrawlStatus::Processing);
            let after = all_updated(table, processing, CrawlStatus::Queued, now);
            &&& after.dom() == table.dom()
            &&& forall|id: int| !selected(after, processing).contains(id)
            &&& forall|id: int| #[trigger]
                table.contains_key(id) ==> after[id] == if table[id].status
                    == CrawlStatus::Processing {
                    ModelView { status: CrawlStatus::Queued, updated_at: now, ..table[id] }
                } else {
                    table[id]
                }
        }),
{
    let processing = TaskQueryView::with_status(CrawlStatus::Processing);
    let after = all_updated(table, processing, CrawlStatus::Queued, now);
    assert(after.dom() =~= table.dom());
}

/// Removing by a rule leaves no task whose URL matches it, and all others stay
/// as they were.
pub proof fn law_removal_leaves_no_match(table: Table, rule: Seq<char>)
    ensures
        ({
            let after = all_deleted(table, TaskQueryView::with_url(UrlMatchView::Like(rule)));
            &&& forall|id: int| #[trigger]
                after.contains_key(id) <==> table.contains_key(id) && !like(rule, table[id].url)
            &&& forall|id: int| #[trigger] after.contains_key(id) ==> after[id] == table[id]
            &&& valid(table) ==> valid(after)
        }),
{
    let query = TaskQueryView::with_url(UrlMatchView::Like(rule));
    let after = all_deleted(table, query);
    assert forall|id: int| #[trigger] after.contains_key(id) <==> table.contains_key(id) && !like(
        rule,
        table[id].url,
    ) by {
        assert(selected(table, query).contains(id) <==> table.contains_key(id) && query.selects(
            table[id],
        ));
    }
    if valid(table) {
        assert forall|a: int, b: int|
            #![trigger after.contains_key(a), after.contains_key(b)]
            after.contains_key(a) && after.contains_key(b) && after[a].url
                == after[b].url implies a == b by {
            assert(table.contains_key(a) && table.contains_key(b));
        }
        assert(after.dom() =~= table.dom().difference(selected(table, query)));
    }
}

/// Updating a row without giving it a URL keeps the table one that a database
/// can hold, and keeps every other row.
pub proof fn lemma_update_keeps_valid(table: Table, update: ActiveModelView, now: int)
    requires
        valid(table),
        update.url is None,
    ensures
        valid(updated(table, update, now)),
        updated(table, update, now).dom() == table.dom(),
        forall|id: int|
            table.contains_key(id) && Some(id) != update.id ==> #[trigger] updated(
                table,
                update,
                now,
            )[id] == table[id],
{
    assert(updated(table, update, now).dom() =~= table.dom());
}

} // verus!
