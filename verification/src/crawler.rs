//! The crawler: which paths to read next, and what to record of each.
//!
//! A [`Crawler`] reads nothing itself. It hands out paths, at most one per
//! worker at a time, and is told what the filesystem reported of each. From
//! that it records folders and files in its catalog and queues the members
//! of every folder it records.
use crate::catalog::{Catalog, CatalogView};
use crate::entry::{FileEntry, FileRecord, FolderEntry, FolderRecord};
use crate::ident::{identify, path_id};
use crate::linkage::{lemma_complete_keeps_valid, lemma_dispatch_keeps_valid, lemma_start_is_valid};
use crate::paths::{child_path, is_component, join, Name};
use vstd::prelude::*;

verus! {

/// What the filesystem reported of one path.
#[derive(Debug)]
pub enum Probe {
    /// The path could not be read: it is missing, access was denied, or its
    /// listing failed.
    Unreadable,
    /// The path is neither a regular file nor a directory.
    Other,
    /// The path is a regular file of `size` bytes.
    File { size: u64 },
    /// The path is a directory whose members have these names.
    Directory { names: Vec<Name> },
}

/// What a [`Probe`] stands for.
pub enum ProbeView {
    Unreadable,
    Other,
    File { size: u64 },
    Directory { names: Seq<Seq<char>> },
}

/// The character sequences of a sequence of strings.
pub open spec fn texts(strings: Seq<String>) -> Seq<Seq<char>> {
    strings.map_values(|s: String| s@)
}

/// The character sequences of a sequence of names.
pub open spec fn name_texts(names: Seq<Name>) -> Seq<Seq<char>> {
    names.map_values(|n: Name| n@)
}

impl ProbeView {
    /// The names of a directory's members are components.
    pub open spec fn valid(self) -> bool {
        self matches ProbeView::Directory { names } ==> forall|i: int|
            0 <= i < names.len() ==> is_component(#[trigger] names[i])
    }
}

impl View for Probe {
    type V = ProbeView;

    open spec fn view(&self) -> ProbeView {
        match *self {
            Probe::Unreadable => ProbeView::Unreadable,
            Probe::Other => ProbeView::Other,
            Probe::File { size } => ProbeView::File { size },
            Probe::Directory { names } => ProbeView::Directory { names: name_texts(names@) },
        }
    }
}

/// A path that is still to be read, with the folder it was found in.
pub struct TaskView {
    pub path: Seq<char>,
    pub parent_id: Option<u64>,
}

#[derive(Debug)]
struct Task {
    path: String,
    parent_id: Option<u64>,
}

impl View for Task {
    type V = TaskView;

    closed spec fn view(&self) -> TaskView {
        TaskView { path: self.path@, parent_id: self.parent_id }
    }
}

/// A path handed to a worker, and the slot that waits for its probe.
#[derive(Debug)]
pub struct Assignment {
    pub slot: usize,
    pub path: String,
}

/// What completing a task added to the catalog.
#[derive(Debug, Clone, Copy, PartialEq, Eq, Structural)]
pub enum Recorded {
    /// Nothing: the path was unreadable, or neither file nor directory.
    Nothing,
    /// One file entry.
    File,
    /// One folder entry.
    Folder,
}

/// Why a completion was refused.
#[derive(Debug, Clone, Copy, PartialEq, Eq, Structural)]
pub enum CrawlError {
    /// The crawler has no slot of that number.
    NoSuchSlot,
    /// The slot holds no task.
    IdleSlot,
}

/// The tasks of the crawl roots: each path, found in no folder.
pub open spec fn root_tasks(roots: Seq<Seq<char>>) -> Seq<TaskView> {
    roots.map_values(|path: Seq<char>| TaskView { path, parent_id: None })
}

/// The tasks of the members `names` of the folder at `dir`.
pub open spec fn member_tasks(dir: Seq<char>, names: Seq<Seq<char>>) -> Seq<TaskView> {
    names.map_values(
        |name: Seq<char>| TaskView { path: child_path(dir, name), parent_id: Some(path_id(dir)) },
    )
}

/// What a probe adds to the catalog, by kind.
pub open spec fn recorded_by(probe: ProbeView) -> Recorded {
    match probe {
        ProbeView::Unreadable => Recorded::Nothing,
        ProbeView::Other => Recorded::Nothing,
        ProbeView::File { .. } => Recorded::File,
        ProbeView::Directory { .. } => Recorded::Folder,
    }
}

/// What a [`Crawler`] stands for.
#[verifier::ext_equal]
pub struct CrawlerView {
    /// What has been recorded.
    pub catalog: CatalogView,
    /// The tasks that wait for a worker; the last one is handed out first.
    pub queue: Seq<TaskView>,
    /// One place per worker, holding the task that the worker is reading.
    pub slots: Seq<Option<TaskView>>,
}

impl CrawlerView {
    /// The crawl of `roots` on `workers` workers, before anything was read.
    pub open spec fn start(roots: Seq<Seq<char>>, workers: nat) -> CrawlerView {
        CrawlerView {
            catalog: CatalogView::empty(),
            queue: root_tasks(roots),
            slots: Seq::new(workers, |i: int| None::<TaskView>),
        }
    }

    /// Slot `slot` exists and holds no task.
    pub open spec fn is_idle(self, slot: int) -> bool {
        0 <= slot < self.slots.len() && self.slots[slot] is None
    }

    /// Slot `slot` exists and holds a task.
    pub open spec fn is_busy(self, slot: int) -> bool {
        0 <= slot < self.slots.len() && self.slots[slot] is Some
    }

    /// Slot `slot` is idle and every slot before it is busy.
    pub open spec fn is_first_idle(self, slot: int) -> bool {
        self.is_idle(slot) && forall|j: int| 0 <= j < slot ==> self.slots[j] is Some
    }

    /// Every worker is reading.
    pub open spec fn saturated(self) -> bool {
        forall|j: int| 0 <= j < self.slots.len() ==> self.slots[j] is Some
    }

    /// No task waits and no worker is reading.
    pub open spec fn finished(self) -> bool {
        &&& self.queue.len() == 0
        &&& forall|j: int| 0 <= j < self.slots.len() ==> self.slots[j] is None
    }

    /// This crawl after the last waiting task has gone to slot `slot`.
    pub open spec fn dispatched(self, slot: int) -> CrawlerView {
        CrawlerView {
            catalog: self.catalog,
            queue: self.queue.drop_last(),
            slots: self.slots.update(slot, Some(self.queue.last())),
        }
    }

    /// This crawl after the task in slot `slot` was answered by `probe`.
    ///
    /// The slot becomes idle. A file or a directory is recorded under the
    /// task's path and parent; a directory's members are queued, each under
    /// the directory's identifier. Anything else leaves no trace.
    pub open spec fn completed(self, slot: int, probe: ProbeView) -> CrawlerView {
        let task = self.slots[slot]->0;
        let slots = self.slots.update(slot, None);
        match probe {
            ProbeView::Unreadable => CrawlerView { slots, ..self },
            ProbeView::Other => CrawlerView { slots, ..self },
            ProbeView::File { size } => CrawlerView {
                catalog: self.catalog.with_file(FileRecord::at(task.path, size, task.parent_id)),
                queue: self.queue,
                slots,
            },
            ProbeView::Directory { names } => CrawlerView {
                catalog: self.catalog.with_folder(FolderRecord::at(task.path, task.parent_id)),
                queue: self.queue + member_tasks(task.path, names),
                slots,
            },
        }
    }

    /// Every task that names a parent has that parent in the catalog.
    pub open spec fn tasks_linked(self) -> bool {
        &&& forall|i: int|
            0 <= i < self.queue.len() ==> self.catalog.has_parent(
                (#[trigger] self.queue[i]).parent_id,
                self.queue[i].path,
            )
        &&& forall|j: int|
            0 <= j < self.slots.len() && (#[trigger] self.slots[j]) is Some
                ==> self.catalog.has_parent(self.slots[j]->0.parent_id, self.slots[j]->0.path)
    }

    /// What holds of every crawl: it has a worker, its records carry their
    /// own identifiers, and whatever names a parent has it in the catalog.
    pub open spec fn valid(self) -> bool {
        &&& self.slots.len() > 0
        &&& self.catalog.consistent()
        &&& self.catalog.linked()
        &&& self.tasks_linked()
    }
}

/// Walks directory trees without reading them.
///
/// It keeps the catalog, the paths that wait to be read, and one slot per
/// worker. [`Crawler::dispatch`] moves a waiting path into a free slot;
/// [`Crawler::complete`] takes what the filesystem reported of the path in a
/// slot. The crawl is over when nothing waits and every slot is free.
#[derive(Debug)]
pub struct Crawler {
    catalog: Catalog,
    queue: Vec<Task>,
    slots: Vec<Option<Task>>,
}

spec fn task_views(tasks: Seq<Task>) -> Seq<TaskView> {
    tasks.map_values(|t: Task| t@)
}

spec fn slot_view(slot: Option<Task>) -> Option<TaskView> {
    match slot {
        Some(task) => Some(task@),
        None => None,
    }
}

spec fn slot_views(slots: Seq<Option<Task>>) -> Seq<Option<TaskView>> {
    slots.map_values(|s: Option<Task>| slot_view(s))
}

impl View for Crawler {
    type V = CrawlerView;

    closed spec fn view(&self) -> CrawlerView {
        CrawlerView {
            catalog: self.catalog@,
            queue: task_views(self.queue@),
            slots: slot_views(self.slots@),
        }
    }
}

impl Crawler {
    /// The crawler stands for a valid crawl. Every crawler that
    /// [`Crawler::new`] makes does, and no step changes that.
    pub open spec fn well_formed(&self) -> bool {
        self@.valid()
    }

    /// Starts a crawl of `roots` on `workers` workers.
    ///
    /// Every root waits to be read, found in no folder. Without a worker
    /// there is no crawl.
    pub fn new(roots: &[String], workers: usize) -> (made: Option<Crawler>)
        ensures
            made is Some <==> workers > 0,
            made matches Some(crawler) ==> crawler.well_formed() && crawler@ == CrawlerView::start(
                texts(roots@),
                workers as nat,
            ),
    {
        if workers == 0 {
            return None;
        }
        let mut queue: Vec<Task> = Vec::new();
        let mut i: usize = 0;
        while i < roots.len()
            invariant
                i <= roots.len(),
                queue.len() == i,
                forall|k: int| 0 <= k < i ==> queue@[k]@ == root_tasks(texts(roots@))[k],
            decreases roots.len() - i,
        {
            queue.push(Task { path: roots[i].clone(), parent_id: None });
            i += 1;
        }
        let mut slots: Vec<Option<Task>> = Vec::new();
        let mut j: usize = 0;
        while j < workers
            invariant
                j <= workers,
                slots.len() == j,
                forall|k: int| 0 <= k < j ==> slots@[k] is None,
            decreases workers - j,
        {
            slots.push(None);
            j += 1;
        }
        let crawler = Crawler { catalog: Catalog::new(), queue, slots };
        proof {
            assert(crawler@ =~= CrawlerView::start(texts(roots@), workers as nat));
            lemma_start_is_valid(texts(roots@), workers as nat);
        }
        Some(crawler)
    }

    /// Whether the crawl is over: nothing waits and no worker is reading.
    pub fn is_finished(&self) -> (over: bool)
        ensures
            over == self@.finished(),
    {
        if self.queue.len() > 0 {
            return false;
        }
        let mut j: usize = 0;
        while j < self.slots.len()
            invariant
                j <= self.slots.len(),
                forall|k: int| 0 <= k < j ==> self.slots@[k] is None,
            decreases self.slots.len() - j,
        {
            if self.slots[j].is_some() {
                assert(self@.slots[j as int] is Some);
                return false;
            }
            j += 1;
        }
        true
    }

    /// Hands the last waiting path to the first free slot.
    ///
    /// Returns `None`, and changes nothing, when no path waits or every
    /// worker is reading.
    pub fn dispatch(&mut self) -> (handed: Option<Assignment>)
        ensures
            old(self).well_formed() ==> final(self).well_formed(),
            match handed {
                Some(assignment) => {
                    &&& old(self)@.queue.len() > 0
                    &&& old(self)@.is_first_idle(assignment.slot as int)
                    &&& assignment.path@ == old(self)@.queue.last().path
                    &&& final(self)@ == old(self)@.dispatched(assignment.slot as int)
                },
                None => {
                    &&& old(self)@.queue.len() == 0 || old(self)@.saturated()
                    &&& final(self)@ == old(self)@
                },
            },
    {
        if self.queue.len() == 0 {
            return None;
        }
        let mut slot: usize = 0;
        while slot < self.slots.len() && self.slots[slot].is_some()
            invariant
                slot <= self.slots.len(),
                forall|k: int| 0 <= k < slot ==> self.slots@[k] is Some,
            decreases self.slots.len() - slot,
        {
            slot += 1;
        }
        if slot == self.slots.len() {
            assert forall|k: int| 0 <= k < self@.slots.len() implies self@.slots[k] is Some by {
                assert(self.slots@[k] is Some);
            }
            return None;
        }
        assert(self@.is_first_idle(slot as int)) by {
            assert(self.slots@[slot as int] is None);
            assert forall|k: int| 0 <= k < slot implies self@.slots[k] is Some by {
                assert(self.slots@[k] is Some);
            }
        }
        let task = self.queue.pop().unwrap();
        let path = task.path.clone();
        self.slots[slot] = Some(task);
        proof {
            assert(self@ =~= old(self)@.dispatched(slot as int));
            if old(self).well_formed() {
                lemma_dispatch_keeps_valid(old(self)@, slot as int);
            }
        }
        Some(Assignment { slot, path })
    }

    /// Takes what the filesystem reported of the path in slot `slot`.
    ///
    /// The slot becomes free. A regular file or a directory is recorded,
    /// and a directory's members wait to be read in their turn; an
    /// unreadable path, or one that is neither, is passed over together
    /// with all that lies under it. The result says what was recorded, so
    /// that the caller can report progress.
    ///
    /// A slot that does not exist or holds no path is an error, and
    /// nothing changes.
    pub fn complete(&mut self, slot: usize, probe: Probe) -> (done: Result<Recorded, CrawlError>)
        ensures
            old(self).well_formed() ==> final(self).well_formed(),
            done is Ok <==> old(self)@.is_busy(slot as int),
            old(self)@.catalog.grows_into(final(self)@.catalog),
            match done {
                Ok(recorded) => {
                    &&& recorded == recorded_by(probe@)
                    &&& final(self)@ == old(self)@.completed(slot as int, probe@)
                },
                Err(error) => {
                    &&& final(self)@ == old(self)@
                    &&& error == CrawlError::NoSuchSlot <==> slot >= old(self)@.slots.len()
                    &&& error == CrawlError::IdleSlot <==> old(self)@.is_idle(slot as int)
                },
            },
    {
        if slot >= self.slots.len() {
            return Err(CrawlError::NoSuchSlot);
        }
        let task = match self.slots[slot].take() {
            Some(task) => task,
            None => {
                assert(old(self).slots@[slot as int] is None);
                assert(self.slots@ =~= old(self).slots@);
                return Err(CrawlError::IdleSlot);
            },
        };
        assert(old(self).slots@[slot as int] == Some(task));
        assert(slot_views(self.slots@) =~= old(self)@.slots.update(slot as int, None));
        let recorded = match probe {
            Probe::Unreadable => Recorded::Nothing,
            Probe::Other => Recorded::Nothing,
            Probe::File { size } => {
                self.catalog.add_file(FileEntry::new(task.path, size, task.parent_id));
                Recorded::File
            },
            Probe::Directory { names } => {
                let id = identify(task.path.as_str());
                let mut i: usize = 0;
                while i < names.len()
                    invariant
                        i <= names.len(),
                        slot < old(self).slots.len(),
                        id == path_id(task.path@),
                        self.catalog@ == old(self).catalog@,
                        self.slots@ == old(self).slots@.update(slot as int, None),
                        forall|k: int| 0 <= k < i ==> is_component(#[trigger] names@[k]@),
                        task_views(self.queue@) =~= old(self)@.queue + member_tasks(
                            task.path@,
                            name_texts(names@),
                        ).take(i as int),
                    decreases names.len() - i,
                {
                    let path = join(task.path.as_str(), names[i].as_str());
                    let ghost members = member_tasks(task.path@, name_texts(names@));
                    let ghost queued = task_views(self.queue@);
                    let member = Task { path, parent_id: Some(id) };
                    assert(member@ == members[i as int]);
                    self.queue.push(member);
                    assert(task_views(self.queue@) =~= queued.push(members[i as int]));
                    assert(members.take(i + 1) =~= members.take(i as int).push(members[i as int]));
                    i += 1;
                }
                self.catalog.add_folder(FolderEntry::new(task.path, task.parent_id));
                Recorded::Folder
            },
        };
        proof {
            assert(self@ =~= old(self)@.completed(slot as int, probe@));
            if old(self).well_formed() {
                assert(probe@.valid());
                lemma_complete_keeps_valid(old(self)@, slot as int, probe@);
            }
        }
        Ok(recorded)
    }

    /// Number of workers the crawl was started with.
    pub fn workers(&self) -> (n: usize)
        ensures
            n == self@.slots.len(),
    {
        self.slots.len()
    }

    /// Number of paths that wait for a worker.
    pub fn waiting(&self) -> (n: usize)
        ensures
            n == self@.queue.len(),
    {
        self.queue.len()
    }

    /// The catalog as recorded so far.
    ///
    /// At every moment of a crawl each record carries the identifier of its
    /// own path, and each record that names a parent has the parent's
    /// folder beside it.
    pub fn catalog(&self) -> (catalog: &Catalog)
        ensures
            catalog@ == self@.catalog,
            self.well_formed() ==> catalog@.consistent() && catalog@.linked(),
    {
        &self.catalog
    }

    /// Gives up the crawler for its catalog.
    pub fn into_catalog(self) -> (catalog: Catalog)
        ensures
            catalog@ == self@.catalog,
            self.well_formed() ==> catalog@.consistent() && catalog@.linked(),
    {
        self.catalog
    }
}

} // verus!
