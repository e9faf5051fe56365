//! Crawls of a given tree, under every order in which the work may be done.
//!
//! A [`Walk`] is a crawl together with the tree that lies under each path
//! it has still to read. Its steps are the crawler's own, answered with what
//! the tree holds. Whatever the order of the steps, the records in the
//! catalog and the records that the outstanding paths still owe add up to
//! the records of the trees the crawl set out with.
use crate::catalog::Contents;
use crate::crawler::{member_tasks, root_tasks, CrawlerView, TaskView};
use crate::ident::path_id;
use crate::linkage::{lemma_complete_keeps_valid, lemma_dispatch_keeps_valid, lemma_start_is_valid};
use crate::paths::child_path;
use crate::tree::{members_contents, members_nodes, names_of, trees_of, Tree};
use vstd::prelude::*;

verus! {

/// The records of `trees`, each lying at the path of the task at its place.
pub open spec fn forest_contents(tasks: Seq<TaskView>, trees: Seq<Tree>) -> Contents
    decreases tasks.len(),
{
    if tasks.len() == 0 {
        Contents::none()
    } else {
        forest_contents(tasks.drop_last(), trees.drop_last()).plus(
            trees.last().contents(tasks.last().path, tasks.last().parent_id),
        )
    }
}

/// Number of reachable directories and regular files in `trees`.
pub open spec fn forest_nodes(trees: Seq<Tree>) -> nat
    decreases trees.len(),
{
    if trees.len() == 0 {
        0
    } else {
        forest_nodes(trees.drop_last()) + trees.last().nodes()
    }
}

/// The records of the trees that lie at the paths the workers are reading.
pub open spec fn held_contents(slots: Seq<Option<TaskView>>, trees: Seq<Tree>) -> Contents
    decreases slots.len(),
{
    if slots.len() == 0 {
        Contents::none()
    } else {
        held_contents(slots.drop_last(), trees.drop_last()).plus(
            match slots.last() {
                Some(task) => trees.last().contents(task.path, task.parent_id),
                None => Contents::none(),
            },
        )
    }
}

/// One step of a crawl.
pub enum Move {
    /// The last waiting path goes to slot `slot`.
    Dispatch { slot: int },
    /// The path in slot `slot` is answered.
    Complete { slot: int },
}

/// A crawl, and what lies at each path it has still to read.
#[verifier::ext_equal]
pub struct Walk {
    pub crawl: CrawlerView,
    /// What lies at the path of each waiting task.
    pub queued: Seq<Tree>,
    /// What lies at the path in each slot; of no meaning for an idle slot.
    pub held: Seq<Tree>,
}

impl Walk {
    /// The crawl of `roots` on `workers` workers, where `trees` lie at the
    /// roots.
    pub open spec fn start(roots: Seq<Seq<char>>, trees: Seq<Tree>, workers: nat) -> Walk {
        Walk {
            crawl: CrawlerView::start(roots, workers),
            queued: trees,
            held: Seq::new(workers, |i: int| Tree::Unreadable),
        }
    }

    /// Each task has its tree.
    pub open spec fn aligned(self) -> bool {
        &&& self.queued.len() == self.crawl.queue.len()
        &&& self.held.len() == self.crawl.slots.len()
    }

    /// Every tree that waits or is being read is well named.
    pub open spec fn well_named(self) -> bool {
        &&& forall|i: int| 0 <= i < self.queued.len() ==> (#[trigger] self.queued[i]).well_named()
        &&& forall|j: int|
            0 <= j < self.held.len() && self.crawl.is_busy(j) ==> (
            #[trigger] self.held[j]).well_named()
    }

    /// The step can be taken: a path waits and `slot` is the first idle
    /// slot, or `slot` holds a path.
    pub open spec fn admits(self, step: Move) -> bool {
        match step {
            Move::Dispatch { slot } => self.crawl.queue.len() > 0 && self.crawl.is_first_idle(slot),
            Move::Complete { slot } => self.crawl.is_busy(slot),
        }
    }

    /// This walk after the last waiting path has gone to slot `slot`.
    pub open spec fn dispatch(self, slot: int) -> Walk {
        Walk {
            crawl: self.crawl.dispatched(slot),
            queued: self.queued.drop_last(),
            held: self.held.update(slot, self.queued.last()),
        }
    }

    /// This walk after the path in slot `slot` was answered with what lies
    /// there.
    pub open spec fn complete(self, slot: int) -> Walk {
        let tree = self.held[slot];
        Walk {
            crawl: self.crawl.completed(slot, tree.probe()),
            queued: match tree {
                Tree::Directory { members } => self.queued + trees_of(members),
                _ => self.queued,
            },
            held: self.held,
        }
    }

    /// This walk after `step`; a step that cannot be taken changes nothing.
    pub open spec fn step(self, step: Move) -> Walk {
        if self.admits(step) {
            match step {
                Move::Dispatch { slot } => self.dispatch(slot),
                Move::Complete { slot } => self.complete(slot),
            }
        } else {
            self
        }
    }

    /// This walk after `steps`, taken in order.
    pub open spec fn run(self, steps: Seq<Move>) -> Walk
        decreases steps.len(),
    {
        if steps.len() == 0 {
            self
        } else {
            self.run(steps.drop_last()).step(steps.last())
        }
    }

    /// The records that the outstanding paths still owe.
    pub open spec fn outstanding(self) -> Contents {
        forest_contents(self.crawl.queue, self.queued).plus(
            held_contents(self.crawl.slots, self.held),
        )
    }

    /// The records in the catalog together with those still owed.
    pub open spec fn total(self) -> Contents {
        self.crawl.catalog.contents().plus(self.outstanding())
    }
}

/// The records of two forests side by side are those of the one and those
/// of the other.
pub proof fn lemma_forest_concat(
    tasks: Seq<TaskView>,
    trees: Seq<Tree>,
    more_tasks: Seq<TaskView>,
    more_trees: Seq<Tree>,
)
    requires
        tasks.len() == trees.len(),
        more_tasks.len() == more_trees.len(),
    ensures
        forest_contents(tasks + more_tasks, trees + more_trees) == forest_contents(
            tasks,
            trees,
        ).plus(forest_contents(more_tasks, more_trees)),
    decreases more_tasks.len(),
{
    let whole = forest_contents(tasks + more_tasks, trees + more_trees);
    let parts = forest_contents(tasks, trees).plus(forest_contents(more_tasks, more_trees));
    if more_tasks.len() == 0 {
        assert(tasks + more_tasks =~= tasks);
        assert(trees + more_trees =~= trees);
        assert(whole =~= parts);
    } else {
        assert((tasks + more_tasks).drop_last() =~= tasks + more_tasks.drop_last());
        assert((trees + more_trees).drop_last() =~= trees + more_trees.drop_last());
        lemma_forest_concat(tasks, trees, more_tasks.drop_last(), more_trees.drop_last());
        assert(whole =~= parts);
    }
}

/// The records of a directory's members are those of the forest that the
/// crawler queues for them.
pub proof fn lemma_members_as_forest(members: Seq<(Seq<char>, Tree)>, dir: Seq<char>)
    ensures
        members_contents(members, dir) == forest_contents(
            member_tasks(dir, names_of(members)),
            trees_of(members),
        ),
    decreases members.len(),
{
    let tasks = member_tasks(dir, names_of(members));
    if members.len() > 0 {
        let fewer = members.drop_last();
        assert(tasks.drop_last() =~= member_tasks(dir, names_of(fewer)));
        assert(trees_of(members).drop_last() =~= trees_of(fewer));
        lemma_members_as_forest(fewer, dir);
    }
}

/// A forest has as many records as it has reachable directories and files.
pub proof fn lemma_forest_count(tasks: Seq<TaskView>, trees: Seq<Tree>)
    requires
        tasks.len() == trees.len(),
    ensures
        forest_contents(tasks, trees).count() == forest_nodes(trees),
    decreases tasks.len(),
{
    if tasks.len() > 0 {
        lemma_forest_count(tasks.drop_last(), trees.drop_last());
        lemma_tree_count(trees.last(), tasks.last().path, tasks.last().parent_id);
    }
}

/// A tree has as many records as it has reachable directories and files.
pub proof fn lemma_tree_count(tree: Tree, path: Seq<char>, parent_id: Option<u64>)
    ensures
        tree.contents(path, parent_id).count() == tree.nodes(),
    decreases tree,
{
    match tree {
        Tree::Directory { members } => {
            lemma_members_count(members, path);
        },
        _ => {},
    }
}

/// The members of a directory have as many records as they have reachable
/// directories and files.
pub proof fn lemma_members_count(members: Seq<(Seq<char>, Tree)>, dir: Seq<char>)
    ensures
        members_contents(members, dir).count() == members_nodes(members),
    decreases members,
{
    if members.len() > 0 {
        lemma_members_count(members.drop_last(), dir);
        lemma_tree_count(
            members.last().1,
            child_path(dir, members.last().0),
            Some(path_id(dir)),
        );
    }
}

/// Idle slots owe nothing.
pub proof fn lemma_idle_slots_owe_nothing(slots: Seq<Option<TaskView>>, trees: Seq<Tree>)
    requires
        forall|j: int| 0 <= j < slots.len() ==> slots[j] is None,
    ensures
        held_contents(slots, trees) == Contents::none(),
    decreases slots.len(),
{
    if slots.len() > 0 {
        lemma_idle_slots_owe_nothing(slots.drop_last(), trees.drop_last());
        assert(held_contents(slots, trees) =~= Contents::none());
    }
}

/// What the slots owe is what they owe with slot `slot` emptied, and what
/// the tree in that slot owes.
pub proof fn lemma_slot_share(slots: Seq<Option<TaskView>>, trees: Seq<Tree>, slot: int)
    requires
        slots.len() == trees.len(),
        0 <= slot < slots.len(),
        slots[slot] is Some,
    ensures
        held_contents(slots, trees) == held_contents(slots.update(slot, None), trees).plus(
            trees[slot].contents(slots[slot]->0.path, slots[slot]->0.parent_id),
        ),
    decreases slots.len(),
{
    let emptied = slots.update(slot, None);
    let share = trees[slot].contents(slots[slot]->0.path, slots[slot]->0.parent_id);
    if slot == slots.len() - 1 {
        assert(emptied.drop_last() =~= slots.drop_last());
    } else {
        assert(emptied.drop_last() =~= slots.drop_last().update(slot, None));
        lemma_slot_share(slots.drop_last(), trees.drop_last(), slot);
    }
    assert(held_contents(slots, trees) =~= held_contents(emptied, trees).plus(share));
}

/// Putting a tree into an idle slot adds what that tree owes.
pub proof fn lemma_slot_filled(
    slots: Seq<Option<TaskView>>,
    trees: Seq<Tree>,
    slot: int,
    task: TaskView,
    tree: Tree,
)
    requires
        slots.len() == trees.len(),
        0 <= slot < slots.len(),
        slots[slot] is None,
    ensures
        held_contents(slots.update(slot, Some(task)), trees.update(slot, tree)) == held_contents(
            slots,
            trees,
        ).plus(tree.contents(task.path, task.parent_id)),
    decreases slots.len(),
{
    let filled = slots.update(slot, Some(task));
    let labels = trees.update(slot, tree);
    if slot == slots.len() - 1 {
        assert(filled.drop_last() =~= slots.drop_last());
        assert(labels.drop_last() =~= trees.drop_last());
    } else {
        assert(filled.drop_last() =~= slots.drop_last().update(slot, Some(task)));
        assert(labels.drop_last() =~= trees.drop_last().update(slot, tree));
        lemma_slot_filled(slots.drop_last(), trees.drop_last(), slot, task, tree);
    }
    assert(held_contents(filled, labels) =~= held_contents(slots, trees).plus(
        tree.contents(task.path, task.parent_id),
    ));
}

/// No step loses or invents a record: what is in the catalog and what is
/// still owed add up to the same before and after.
pub proof fn lemma_step_keeps_total(walk: Walk, step: Move)
    requires
        walk.aligned(),
    ensures
        walk.step(step).aligned(),
        walk.step(step).total() == walk.total(),
        walk.step(step).crawl.slots.len() == walk.crawl.slots.len(),
{
    broadcast use vstd::seq_lib::group_to_multiset_ensures;

    if walk.admits(step) {
        let next = walk.step(step);
        let crawl = walk.crawl;
        match step {
            Move::Dispatch { slot } => {
                let task = crawl.queue.last();
                let tree = walk.queued.last();
                lemma_slot_filled(crawl.slots, walk.held, slot, task, tree);
                assert(next.total() =~= walk.total());
            },
            Move::Complete { slot } => {
                let task = crawl.slots[slot]->0;
                let tree = walk.held[slot];
                lemma_slot_share(crawl.slots, walk.held, slot);
                match tree {
                    Tree::Directory { members } => {
                        let tasks = member_tasks(task.path, names_of(members));
                        lemma_members_as_forest(members, task.path);
                        lemma_forest_concat(crawl.queue, walk.queued, tasks, trees_of(members));
                        assert(next.total() =~= walk.total());
                    },
                    _ => {
                        assert(next.total() =~= walk.total());
                    },
                }
            },
        }
    }
}

/// At the start nothing is recorded and the roots owe all their records.
pub proof fn lemma_start_total(roots: Seq<Seq<char>>, trees: Seq<Tree>, workers: nat)
    requires
        roots.len() == trees.len(),
    ensures
        Walk::start(roots, trees, workers).aligned(),
        Walk::start(roots, trees, workers).total() == forest_contents(root_tasks(roots), trees),
{
    broadcast use vstd::seq_lib::group_to_multiset_ensures;
    broadcast use vstd::multiset::lemma_multiset_empty_len;

    let walk = Walk::start(roots, trees, workers);
    lemma_idle_slots_owe_nothing(walk.crawl.slots, walk.held);
    assert(walk.crawl.catalog.folders.to_multiset().len() == 0);
    assert(walk.crawl.catalog.files.to_multiset().len() == 0);
    assert(walk.crawl.catalog.contents() =~= Contents::none());
    assert(walk.total() =~= forest_contents(root_tasks(roots), trees));
}

/// Whatever the steps and their order, the records in the catalog and the
/// records still owed add up to what they added up to before, and the number
/// of workers stays what it was.
pub proof fn lemma_run_keeps_total(walk: Walk, steps: Seq<Move>)
    requires
        walk.aligned(),
    ensures
        walk.run(steps).aligned(),
        walk.run(steps).total() == walk.total(),
        walk.run(steps).crawl.slots.len() == walk.crawl.slots.len(),
    decreases steps.len(),
{
    if steps.len() > 0 {
        lemma_run_keeps_total(walk, steps.drop_last());
        lemma_step_keeps_total(walk.run(steps.drop_last()), steps.last());
    }
}

/// Whatever the steps and their order, a valid crawl of well-named trees
/// stays valid: every record and every outstanding path that names a parent
/// has that parent's folder in the catalog.
pub proof fn lemma_run_keeps_valid(walk: Walk, steps: Seq<Move>)
    requires
        walk.aligned(),
        walk.well_named(),
        walk.crawl.valid(),
    ensures
        walk.run(steps).aligned(),
        walk.run(steps).well_named(),
        walk.run(steps).crawl.valid(),
    decreases steps.len(),
{
    if steps.len() > 0 {
        lemma_run_keeps_valid(walk, steps.drop_last());
        let before = walk.run(steps.drop_last());
        lemma_step_keeps_total(before, steps.last());
        if before.admits(steps.last()) {
            match steps.last() {
                Move::Dispatch { slot } => {
                    lemma_dispatch_keeps_valid(before.crawl, slot);
                },
                Move::Complete { slot } => {
                    let tree = before.held[slot];
                    assert(tree.well_named());
                    lemma_complete_keeps_valid(before.crawl, slot, tree.probe());
                },
            }
        }
    }
}

/// A crawl of well-named trees that started with a worker is valid after
/// any steps: every entry but a root has the folder it was found in beside
/// it in the catalog, under the identifier it names as its parent, and its
/// path is that folder's path and one component more.
pub proof fn lemma_crawl_stays_valid(
    roots: Seq<Seq<char>>,
    trees: Seq<Tree>,
    workers: nat,
    steps: Seq<Move>,
)
    requires
        workers > 0,
        roots.len() == trees.len(),
        forall|i: int| 0 <= i < trees.len() ==> (#[trigger] trees[i]).well_named(),
    ensures
        Walk::start(roots, trees, workers).run(steps).crawl.valid(),
{
    lemma_start_is_valid(roots, workers);
    lemma_run_keeps_valid(Walk::start(roots, trees, workers), steps);
}

/// Whatever the steps and their order, what was recorded stays recorded, at
/// the place where it was put.
pub proof fn lemma_run_grows_catalog(walk: Walk, steps: Seq<Move>)
    ensures
        walk.crawl.catalog.grows_into(walk.run(steps).crawl.catalog),
    decreases steps.len(),
{
    if steps.len() > 0 {
        lemma_run_grows_catalog(walk, steps.drop_last());
    }
}

/// A crawl that has come to its end has recorded the trees it set out with:
/// one record for each directory and regular file that can be reached, no
/// other, and none twice over. This holds for every order of the steps and
/// every number of workers.
pub proof fn lemma_finished_crawl_is_complete(
    roots: Seq<Seq<char>>,
    trees: Seq<Tree>,
    workers: nat,
    steps: Seq<Move>,
)
    requires
        roots.len() == trees.len(),
        Walk::start(roots, trees, workers).run(steps).crawl.finished(),
    ensures
        Walk::start(roots, trees, workers).run(steps).crawl.catalog.contents() == forest_contents(
            root_tasks(roots),
            trees,
        ),
        Walk::start(roots, trees, workers).run(steps).crawl.catalog.len() == forest_nodes(trees),
{
    broadcast use vstd::seq_lib::group_to_multiset_ensures;

    let start = Walk::start(roots, trees, workers);
    let end = start.run(steps);
    lemma_start_total(roots, trees, workers);
    lemma_run_keeps_total(start, steps);
    lemma_idle_slots_owe_nothing(end.crawl.slots, end.held);
    assert(end.total() =~= end.crawl.catalog.contents());
    lemma_forest_count(root_tasks(roots), trees);
}

/// Two crawls of the same trees from the same roots end with the same
/// records, whatever order each took its steps in and however many workers
/// each had.
pub proof fn lemma_finished_crawls_agree(
    roots: Seq<Seq<char>>,
    trees: Seq<Tree>,
    workers: nat,
    steps: Seq<Move>,
    other_workers: nat,
    other_steps: Seq<Move>,
)
    requires
        roots.len() == trees.len(),
        Walk::start(roots, trees, workers).run(steps).crawl.finished(),
        Walk::start(roots, trees, other_workers).run(other_steps).crawl.finished(),
    ensures
        Walk::start(roots, trees, workers).run(steps).crawl.catalog.contents() == Walk::start(
            roots,
            trees,
            other_workers,
        ).run(other_steps).crawl.catalog.contents(),
{
    lemma_finished_crawl_is_complete(roots, trees, workers, steps);
    lemma_finished_crawl_is_complete(roots, trees, other_workers, other_steps);
}

} // verus!
