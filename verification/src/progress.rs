//! Every crawl of a finite tree comes to its end.
//!
//! A path costs a crawl two steps: it is handed to a worker, and it is
//! answered. So the steps that a crawl has left are known from the trees
//! that lie at its outstanding paths, each step that is taken leaves one
//! fewer, and while any are left one can be taken.
use crate::crawler::TaskView;
use crate::tree::{trees_of, Tree};
use crate::walk::{lemma_run_keeps_total, lemma_start_total, Move, Walk};
use vstd::prelude::*;

verus! {

impl Tree {
    /// Number of steps that a crawl spends on this tree: two on the path at
    /// which it lies and, where that is a directory that can be read, those
    /// spent on its members.
    pub open spec fn steps(self) -> nat
        decreases self,
    {
        match self {
            Tree::Directory { members } => 2 + members_steps(members),
            _ => 2,
        }
    }
}

/// Number of steps that a crawl spends on these members.
pub open spec fn members_steps(members: Seq<(Seq<char>, Tree)>) -> nat
    decreases members,
{
    if members.len() == 0 {
        0
    } else {
        members_steps(members.drop_last()) + members.last().1.steps()
    }
}

/// Number of steps that a crawl spends on trees that wait to be read.
pub open spec fn waiting_steps(trees: Seq<Tree>) -> nat
    decreases trees.len(),
{
    if trees.len() == 0 {
        0
    } else {
        waiting_steps(trees.drop_last()) + trees.last().steps()
    }
}

/// Number of steps that a crawl still spends on the trees that its workers
/// are reading: for each, one fewer than on a tree that waits.
pub open spec fn reading_steps(slots: Seq<Option<TaskView>>, trees: Seq<Tree>) -> nat
    decreases slots.len(),
{
    if slots.len() == 0 {
        0
    } else {
        reading_steps(slots.drop_last(), trees.drop_last()) + if slots.last() is Some {
            (trees.last().steps() - 1) as nat
        } else {
            0
        }
    }
}

impl Walk {
    /// Number of steps that this walk has left.
    pub open spec fn steps_left(self) -> nat {
        waiting_steps(self.queued) + reading_steps(self.crawl.slots, self.held)
    }

    /// Each of `steps` can be taken when its turn comes.
    pub open spec fn admits_all(self, steps: Seq<Move>) -> bool
        decreases steps.len(),
    {
        steps.len() > 0 ==> {
            &&& self.admits_all(steps.drop_last())
            &&& self.run(steps.drop_last()).admits(steps.last())
        }
    }
}

/// Trees side by side cost the steps of the ones and the steps of the
/// others.
pub proof fn lemma_waiting_steps_add(trees: Seq<Tree>, more: Seq<Tree>)
    ensures
        waiting_steps(trees + more) == waiting_steps(trees) + waiting_steps(more),
    decreases more.len(),
{
    if more.len() == 0 {
        assert(trees + more =~= trees);
    } else {
        assert((trees + more).drop_last() =~= trees + more.drop_last());
        lemma_waiting_steps_add(trees, more.drop_last());
    }
}

/// The members of a directory cost what their trees cost once they wait.
pub proof fn lemma_members_steps(members: Seq<(Seq<char>, Tree)>)
    ensures
        members_steps(members) == waiting_steps(trees_of(members)),
    decreases members.len(),
{
    if members.len() > 0 {
        assert(trees_of(members).drop_last() =~= trees_of(members.drop_last()));
        lemma_members_steps(members.drop_last());
    }
}

/// Idle workers cost no step.
pub proof fn lemma_idle_slots_cost_nothing(slots: Seq<Option<TaskView>>, trees: Seq<Tree>)
    requires
        forall|j: int| 0 <= j < slots.len() ==> slots[j] is None,
    ensures
        reading_steps(slots, trees) == 0,
    decreases slots.len(),
{
    if slots.len() > 0 {
        lemma_idle_slots_cost_nothing(slots.drop_last(), trees.drop_last());
    }
}

/// A tree that goes to an idle worker costs one step fewer than it did
/// while it waited.
pub proof fn lemma_slot_filled_steps(
    slots: Seq<Option<TaskView>>,
    trees: Seq<Tree>,
    slot: int,
    task: TaskView,
    tree: Tree,
)
    requires
        slots.len() == trees.len(),
        0 <= slot < slots.len(),
        slots[slot] is None,
    ensures
        reading_steps(slots.update(slot, Some(task)), trees.update(slot, tree)) == reading_steps(
            slots,
            trees,
        ) + tree.steps() - 1,
    decreases slots.len(),
{
    let filled = slots.update(slot, Some(task));
    let labels = trees.update(slot, tree);
    if slot == slots.len() - 1 {
        assert(filled.drop_last() =~= slots.drop_last());
        assert(labels.drop_last() =~= trees.drop_last());
    } else {
        assert(filled.drop_last() =~= slots.drop_last().update(slot, Some(task)));
        assert(labels.drop_last() =~= trees.drop_last().update(slot, tree));
        lemma_slot_filled_steps(slots.drop_last(), trees.drop_last(), slot, task, tree);
    }
}

/// A busy worker costs the steps of its tree but one.
pub proof fn lemma_slot_emptied_steps(slots: Seq<Option<TaskView>>, trees: Seq<Tree>, slot: int)
    requires
        slots.len() == trees.len(),
        0 <= slot < slots.len(),
        slots[slot] is Some,
    ensures
        reading_steps(slots, trees) == reading_steps(slots.update(slot, None), trees)
            + trees[slot].steps() - 1,
    decreases slots.len(),
{
    let emptied = slots.update(slot, None);
    if slot == slots.len() - 1 {
        assert(emptied.drop_last() =~= slots.drop_last());
    } else {
        assert(emptied.drop_last() =~= slots.drop_last().update(slot, None));
        lemma_slot_emptied_steps(slots.drop_last(), trees.drop_last(), slot);
    }
}

/// A step that is taken leaves one step fewer.
pub proof fn lemma_step_counts_down(walk: Walk, step: Move)
    requires
        walk.aligned(),
        walk.admits(step),
    ensures
        walk.step(step).steps_left() + 1 == walk.steps_left(),
{
    match step {
        Move::Dispatch { slot } => {
            let task = walk.crawl.queue.last();
            let tree = walk.queued.last();
            lemma_slot_filled_steps(walk.crawl.slots, walk.held, slot, task, tree);
        },
        Move::Complete { slot } => {
            let tree = walk.held[slot];
            lemma_slot_emptied_steps(walk.crawl.slots, walk.held, slot);
            match tree {
                Tree::Directory { members } => {
                    lemma_members_steps(members);
                    lemma_waiting_steps_add(walk.queued, trees_of(members));
                },
                _ => {},
            }
        },
    }
}

/// A walk is over exactly when it has no step left.
pub proof fn lemma_finished_means_no_steps_left(walk: Walk)
    requires
        walk.aligned(),
    ensures
        walk.crawl.finished() <==> walk.steps_left() == 0,
{
    if walk.crawl.finished() {
        lemma_idle_slots_cost_nothing(walk.crawl.slots, walk.held);
        assert(walk.queued =~= Seq::empty());
    } else if walk.crawl.queue.len() > 0 {
        assert(walk.queued.last().steps() >= 2);
    } else {
        let slot = choose|j: int| 0 <= j < walk.crawl.slots.len() && !(walk.crawl.slots[j] is None);
        lemma_slot_emptied_steps(walk.crawl.slots, walk.held, slot);
        assert(walk.held[slot].steps() >= 2);
    }
}

/// A crawl that has a worker and is not over can take a step: it cannot
/// get stuck.
pub proof fn lemma_unfinished_walk_can_step(walk: Walk)
    requires
        walk.crawl.slots.len() > 0,
        !walk.crawl.finished(),
    ensures
        exists|step: Move| walk.admits(step),
{
    if exists|j: int| 0 <= j < walk.crawl.slots.len() && walk.crawl.slots[j] is Some {
        let slot = choose|j: int| 0 <= j < walk.crawl.slots.len() && walk.crawl.slots[j] is Some;
        assert(walk.admits(Move::Complete { slot }));
    } else {
        assert(walk.crawl.is_first_idle(0));
        assert(walk.admits(Move::Dispatch { slot: 0 }));
    }
}

/// Steps that are all taken leave as many fewer as they are.
pub proof fn lemma_run_counts_down(walk: Walk, steps: Seq<Move>)
    requires
        walk.aligned(),
        walk.admits_all(steps),
    ensures
        walk.run(steps).steps_left() + steps.len() == walk.steps_left(),
    decreases steps.len(),
{
    if steps.len() > 0 {
        lemma_run_counts_down(walk, steps.drop_last());
        lemma_run_keeps_total(walk, steps.drop_last());
        lemma_step_counts_down(walk.run(steps.drop_last()), steps.last());
    }
}

/// A crawl takes two steps for every path it reads, in whatever order and
/// on however many workers: it is over when it has taken that many, and
/// not before.
pub proof fn lemma_crawl_ends(
    roots: Seq<Seq<char>>,
    trees: Seq<Tree>,
    workers: nat,
    steps: Seq<Move>,
)
    requires
        roots.len() == trees.len(),
        Walk::start(roots, trees, workers).admits_all(steps),
    ensures
        steps.len() <= waiting_steps(trees),
        Walk::start(roots, trees, workers).run(steps).crawl.finished() <==> steps.len()
            == waiting_steps(trees),
{
    let start = Walk::start(roots, trees, workers);
    lemma_start_total(roots, trees, workers);
    lemma_idle_slots_cost_nothing(start.crawl.slots, start.held);
    lemma_run_counts_down(start, steps);
    lemma_run_keeps_total(start, steps);
    lemma_finished_means_no_steps_left(start.run(steps));
}

} // verus!
