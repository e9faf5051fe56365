//! Parent links: every entry but a root has its folder beside it.
//!
//! The crawler records a folder before it queues the folder's members, and
//! nothing ever leaves the catalog. So whatever names a parent, be it a
//! record or a path that is still to be read, finds that parent's record in
//! the catalog, and the record's path is the directory the member was
//! listed in.
use crate::catalog::CatalogView;
use crate::crawler::{CrawlerView, ProbeView};
use crate::ident::path_id;
use crate::paths::{child_path, is_component, is_member_of};
use vstd::prelude::*;

verus! {

/// A parent that a catalog holds, every later catalog holds too.
pub proof fn lemma_parent_stays(
    before: CatalogView,
    after: CatalogView,
    parent_id: Option<u64>,
    child: Seq<char>,
)
    requires
        before.grows_into(after),
        before.has_parent(parent_id, child),
    ensures
        after.has_parent(parent_id, child),
{
    if let Some(id) = parent_id {
        let k = choose|k: int| #[trigger] before.holds_parent(k, id, child);
        assert(after.folders[k] == before.folders[k]);
        assert(after.holds_parent(k, id, child));
    }
}

/// A catalog that holds the record of the folder at `dir` holds the parent
/// of each of that folder's members.
pub proof fn lemma_member_has_parent(catalog: CatalogView, k: int, dir: Seq<char>, name: Seq<char>)
    requires
        0 <= k < catalog.folders.len(),
        catalog.folders[k].id == path_id(dir),
        catalog.folders[k].path == dir,
        is_component(name),
    ensures
        catalog.has_parent(Some(path_id(dir)), child_path(dir, name)),
{
    let child = child_path(dir, name);
    let parent_id = Some(path_id(dir));
    assert(is_member_of(child, dir));
    assert(catalog.holds_parent(k, parent_id->0, child));
}

/// A crawl that has a worker is valid before anything was read.
pub proof fn lemma_start_is_valid(roots: Seq<Seq<char>>, workers: nat)
    requires
        workers > 0,
    ensures
        CrawlerView::start(roots, workers).valid(),
{
}

/// Handing a task to an idle slot keeps a crawl valid.
pub proof fn lemma_dispatch_keeps_valid(crawl: CrawlerView, slot: int)
    requires
        crawl.valid(),
        crawl.queue.len() > 0,
        crawl.is_idle(slot),
    ensures
        crawl.dispatched(slot).valid(),
{
    let next = crawl.dispatched(slot);
    assert forall|i: int| 0 <= i < next.queue.len() implies next.catalog.has_parent(
        (#[trigger] next.queue[i]).parent_id,
        next.queue[i].path,
    ) by {
        assert(next.queue[i] == crawl.queue[i]);
    }
    assert forall|j: int|
        0 <= j < next.slots.len() && (#[trigger] next.slots[j]) is Some implies next.catalog.has_parent(
        next.slots[j]->0.parent_id,
        next.slots[j]->0.path,
    ) by {
        if j == slot {
            assert(next.slots[j]->0 == crawl.queue[crawl.queue.len() - 1]);
        } else {
            assert(next.slots[j] == crawl.slots[j]);
        }
    }
}

/// Completing a task keeps a crawl valid, whatever the probe says: every
/// record and every task that names a parent still has it in the catalog,
/// and the members that a directory queues find their parent in the record
/// that the step has just added.
pub proof fn lemma_complete_keeps_valid(crawl: CrawlerView, slot: int, probe: ProbeView)
    requires
        crawl.valid(),
        crawl.is_busy(slot),
        probe.valid(),
    ensures
        crawl.completed(slot, probe).valid(),
        crawl.catalog.grows_into(crawl.completed(slot, probe).catalog),
{
    let next = crawl.completed(slot, probe);
    let task = crawl.slots[slot]->0;
    assert(crawl.catalog.grows_into(next.catalog));
    lemma_parent_stays(crawl.catalog, next.catalog, task.parent_id, task.path);
    assert forall|i: int| 0 <= i < next.catalog.folders.len() implies (
    #[trigger] next.catalog.folders[i]).consistent() && next.catalog.has_parent(
        next.catalog.folders[i].parent_id,
        next.catalog.folders[i].path,
    ) by {
        if i < crawl.catalog.folders.len() {
            let record = crawl.catalog.folders[i];
            assert(next.catalog.folders[i] == record);
            lemma_parent_stays(crawl.catalog, next.catalog, record.parent_id, record.path);
        }
    }
    assert forall|i: int| 0 <= i < next.catalog.files.len() implies (
    #[trigger] next.catalog.files[i]).consistent() && next.catalog.has_parent(
        next.catalog.files[i].parent_id,
        next.catalog.files[i].path,
    ) by {
        if i < crawl.catalog.files.len() {
            let record = crawl.catalog.files[i];
            assert(next.catalog.files[i] == record);
            lemma_parent_stays(crawl.catalog, next.catalog, record.parent_id, record.path);
        }
    }
    assert forall|i: int| 0 <= i < next.queue.len() implies next.catalog.has_parent(
        (#[trigger] next.queue[i]).parent_id,
        next.queue[i].path,
    ) by {
        if i < crawl.queue.len() {
            let waiting = crawl.queue[i];
            assert(next.queue[i] == waiting);
            lemma_parent_stays(crawl.catalog, next.catalog, waiting.parent_id, waiting.path);
        } else {
            let name = probe->names[i - crawl.queue.len()];
            lemma_member_has_parent(
                next.catalog,
                crawl.catalog.folders.len() as int,
                task.path,
                name,
            );
        }
    }
    assert forall|j: int|
        0 <= j < next.slots.len() && (#[trigger] next.slots[j]) is Some implies next.catalog.has_parent(
        next.slots[j]->0.parent_id,
        next.slots[j]->0.path,
    ) by {
        let reading = crawl.slots[j]->0;
        assert(next.slots[j] == crawl.slots[j]);
        lemma_parent_stays(crawl.catalog, next.catalog, reading.parent_id, reading.path);
    }
}

} // verus!
