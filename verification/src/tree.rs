//! Directory trees, and what a crawl of one has to record.
//!
//! Nothing here runs: a [`Tree`] is the filesystem as it is, against which
//! the crawler's steps are judged.
use crate::catalog::Contents;
use crate::crawler::ProbeView;
use crate::entry::{FileRecord, FolderRecord};
use crate::ident::path_id;
use crate::paths::{child_path, is_component};
use vstd::prelude::*;

verus! {

/// What lies at a path.
pub enum Tree {
    /// Something that cannot be read, with whatever lies under it.
    Unreadable,
    /// Something that is neither a regular file nor a directory.
    Other,
    /// A regular file of `size` bytes.
    File { size: u64 },
    /// A directory and, by name, what lies at each of its members.
    Directory { members: Seq<(Seq<char>, Tree)> },
}

/// The names of a directory's members, in order.
pub open spec fn names_of(members: Seq<(Seq<char>, Tree)>) -> Seq<Seq<char>> {
    members.map_values(|m: (Seq<char>, Tree)| m.0)
}

/// What lies at each of a directory's members, in order.
pub open spec fn trees_of(members: Seq<(Seq<char>, Tree)>) -> Seq<Tree> {
    members.map_values(|m: (Seq<char>, Tree)| m.1)
}

impl Tree {
    /// What the filesystem reports of the path at which this tree lies.
    pub open spec fn probe(self) -> ProbeView {
        match self {
            Tree::Unreadable => ProbeView::Unreadable,
            Tree::Other => ProbeView::Other,
            Tree::File { size } => ProbeView::File { size },
            Tree::Directory { members } => ProbeView::Directory { names: names_of(members) },
        }
    }

    /// Every member of every directory in this tree has a name that is a
    /// component, as a filesystem's listings give them.
    pub open spec fn well_named(self) -> bool
        decreases self,
    {
        match self {
            Tree::Directory { members } => forall|i: int|
                0 <= i < members.len() ==> is_component((#[trigger] members[i]).0)
                    && members[i].1.well_named(),
            _ => true,
        }
    }

    /// Number of directories and regular files in this tree that can be
    /// reached without passing through anything unreadable.
    pub open spec fn nodes(self) -> nat
        decreases self,
    {
        match self {
            Tree::Unreadable => 0,
            Tree::Other => 0,
            Tree::File { .. } => 1,
            Tree::Directory { members } => 1 + members_nodes(members),
        }
    }

    /// The records of this tree when it lies at `path` and was found in the
    /// folder `parent_id`: one for each directory and regular file that can
    /// be reached, each under the identifier of the directory that lists it.
    pub open spec fn contents(self, path: Seq<char>, parent_id: Option<u64>) -> Contents
        decreases self,
    {
        match self {
            Tree::Unreadable => Contents::none(),
            Tree::Other => Contents::none(),
            Tree::File { size } => Contents::file(FileRecord::at(path, size, parent_id)),
            Tree::Directory { members } => Contents::folder(FolderRecord::at(path, parent_id)).plus(
                members_contents(members, path),
            ),
        }
    }
}

/// Number of reachable directories and regular files under these members.
pub open spec fn members_nodes(members: Seq<(Seq<char>, Tree)>) -> nat
    decreases members,
{
    if members.len() == 0 {
        0
    } else {
        members_nodes(members.drop_last()) + members.last().1.nodes()
    }
}

/// The records of the members of the directory at `dir`.
pub open spec fn members_contents(members: Seq<(Seq<char>, Tree)>, dir: Seq<char>) -> Contents
    decreases members,
{
    if members.len() == 0 {
        Contents::none()
    } else {
        members_contents(members.drop_last(), dir).plus(
            members.last().1.contents(child_path(dir, members.last().0), Some(path_id(dir))),
        )
    }
}

/// What one member of a directory lets a crawl record.
pub open spec fn member_share(members: Seq<(Seq<char>, Tree)>, dir: Seq<char>, i: int) -> Contents {
    members[i].1.contents(child_path(dir, members[i].0), Some(path_id(dir)))
}

/// The members of a directory are recorded each for itself: the records of
/// all of them are the records of one and the records of the others, which
/// are what they would be if that one were not there.
pub proof fn lemma_members_are_independent(members: Seq<(Seq<char>, Tree)>, dir: Seq<char>, i: int)
    requires
        0 <= i < members.len(),
    ensures
        members_contents(members, dir) == members_contents(members.remove(i), dir).plus(
            member_share(members, dir, i),
        ),
    decreases members.len(),
{
    let others = members.remove(i);
    let share = member_share(members, dir, i);
    if i == members.len() - 1 {
        assert(others =~= members.drop_last());
    } else {
        assert(others.drop_last() =~= members.drop_last().remove(i));
        assert(others.last() == members.last());
        lemma_members_are_independent(members.drop_last(), dir, i);
        assert(members_contents(members, dir) =~= members_contents(others, dir).plus(share));
    }
}

/// An unreadable member costs a directory the records under that member
/// and nothing else: the directory's members are recorded as if the
/// unreadable one were not there.
pub proof fn lemma_unreadable_member_is_isolated(
    members: Seq<(Seq<char>, Tree)>,
    dir: Seq<char>,
    i: int,
)
    requires
        0 <= i < members.len(),
        members[i].1 is Unreadable,
    ensures
        member_share(members, dir, i) == Contents::none(),
        members_contents(members, dir) == members_contents(members.remove(i), dir),
{
    lemma_members_are_independent(members, dir, i);
    assert(members_contents(members.remove(i), dir).plus(Contents::none())
        =~= members_contents(members.remove(i), dir));
}

} // verus!
