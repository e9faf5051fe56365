//! The catalog: every folder and file that a crawl has recorded.
use crate::entry::{FileEntry, FileRecord, FolderEntry, FolderRecord};
use crate::paths::is_member_of;
use vstd::multiset::Multiset;
use vstd::prelude::*;

verus! {

/// The records that a sequence of folder entries stands for.
pub open spec fn folder_records(entries: Seq<FolderEntry>) -> Seq<FolderRecord> {
    entries.map_values(|e: FolderEntry| e@)
}

/// The records that a sequence of file entries stands for.
pub open spec fn file_records(entries: Seq<FileEntry>) -> Seq<FileRecord> {
    entries.map_values(|e: FileEntry| e@)
}

/// Records without an order: how often each one occurs.
#[verifier::ext_equal]
pub struct Contents {
    pub folders: Multiset<FolderRecord>,
    pub files: Multiset<FileRecord>,
}

impl Contents {
    /// No record at all.
    pub open spec fn none() -> Contents {
        Contents { folders: Multiset::empty(), files: Multiset::empty() }
    }

    /// One folder record.
    pub open spec fn folder(record: FolderRecord) -> Contents {
        Contents { folders: Multiset::singleton(record), files: Multiset::empty() }
    }

    /// One file record.
    pub open spec fn file(record: FileRecord) -> Contents {
        Contents { folders: Multiset::empty(), files: Multiset::singleton(record) }
    }

    /// The records of both.
    pub open spec fn plus(self, other: Contents) -> Contents {
        Contents { folders: self.folders.add(other.folders), files: self.files.add(other.files) }
    }

    /// Number of records, folders and files together.
    pub open spec fn count(self) -> nat {
        self.folders.len() + self.files.len()
    }
}

/// What a [`Catalog`] stands for: its records, each kind in insertion order.
#[verifier::ext_equal]
pub struct CatalogView {
    pub folders: Seq<FolderRecord>,
    pub files: Seq<FileRecord>,
}

impl CatalogView {
    /// The catalog without records.
    pub open spec fn empty() -> CatalogView {
        CatalogView { folders: Seq::empty(), files: Seq::empty() }
    }

    /// This catalog after `record` has been appended to its folders.
    pub open spec fn with_folder(self, record: FolderRecord) -> CatalogView {
        CatalogView { folders: self.folders.push(record), files: self.files }
    }

    /// This catalog after `record` has been appended to its files.
    pub open spec fn with_file(self, record: FileRecord) -> CatalogView {
        CatalogView { folders: self.folders, files: self.files.push(record) }
    }

    /// Number of records, folders and files together.
    pub open spec fn len(self) -> nat {
        self.folders.len() + self.files.len()
    }

    /// The records with their order forgotten.
    pub open spec fn contents(self) -> Contents {
        Contents { folders: self.folders.to_multiset(), files: self.files.to_multiset() }
    }

    /// Every record of `self` is, at the same place, a record of `later`.
    pub open spec fn grows_into(self, later: CatalogView) -> bool {
        &&& self.folders.is_prefix_of(later.folders)
        &&& self.files.is_prefix_of(later.files)
    }

    /// Every record carries the identifier that belongs to its path.
    pub open spec fn consistent(self) -> bool {
        &&& forall|i: int| 0 <= i < self.folders.len() ==> (#[trigger] self.folders[i]).consistent()
        &&& forall|i: int| 0 <= i < self.files.len() ==> (#[trigger] self.files[i]).consistent()
    }

    /// The folder record at place `k` has the identifier `id`, and `child`
    /// is the path of one of that folder's members.
    pub open spec fn holds_parent(self, k: int, id: u64, child: Seq<char>) -> bool {
        &&& 0 <= k < self.folders.len()
        &&& self.folders[k].id == id
        &&& is_member_of(child, self.folders[k].path)
    }

    /// Where `parent_id` names a folder, that folder is in this catalog and
    /// `child` is the path of one of its members.
    pub open spec fn has_parent(self, parent_id: Option<u64>, child: Seq<char>) -> bool {
        match parent_id {
            Some(id) => exists|k: int| #[trigger] self.holds_parent(k, id, child),
            None => true,
        }
    }

    /// Every record that names a parent has that parent in this catalog.
    pub open spec fn linked(self) -> bool {
        &&& forall|i: int|
            0 <= i < self.folders.len() ==> self.has_parent(
                (#[trigger] self.folders[i]).parent_id,
                self.folders[i].path,
            )
        &&& forall|i: int|
            0 <= i < self.files.len() ==> self.has_parent(
                (#[trigger] self.files[i]).parent_id,
                self.files[i].path,
            )
    }
}

/// Two append-only collections, one of folders and one of files.
///
/// Entries are never removed or changed once added.
#[derive(Debug)]
pub struct Catalog {
    folders: Vec<FolderEntry>,
    files: Vec<FileEntry>,
}

impl View for Catalog {
    type V = CatalogView;

    closed spec fn view(&self) -> CatalogView {
        CatalogView {
            folders: folder_records(self.folders@),
            files: file_records(self.files@),
        }
    }
}

impl Catalog {
    /// Creates a catalog without entries.
    pub fn new() -> (catalog: Catalog)
        ensures
            catalog@ == CatalogView::empty(),
    {
        let catalog = Catalog { folders: Vec::new(), files: Vec::new() };
        assert(catalog@ =~= CatalogView::empty());
        catalog
    }

    /// Appends a folder entry; nothing else changes.
    pub fn add_folder(&mut self, entry: FolderEntry)
        ensures
            final(self)@ == old(self)@.with_folder(entry@),
            old(self)@.grows_into(final(self)@),
    {
        self.folders.push(entry);
        assert(self@ =~= old(self)@.with_folder(entry@));
    }

    /// Appends a file entry; nothing else changes.
    pub fn add_file(&mut self, entry: FileEntry)
        ensures
            final(self)@ == old(self)@.with_file(entry@),
            old(self)@.grows_into(final(self)@),
    {
        self.files.push(entry);
        assert(self@ =~= old(self)@.with_file(entry@));
    }

    /// Number of folder entries.
    pub fn folder_count(&self) -> (n: usize)
        ensures
            n == self@.folders.len(),
    {
        self.folders.len()
    }

    /// Number of file entries.
    pub fn file_count(&self) -> (n: usize)
        ensures
            n == self@.files.len(),
    {
        self.files.len()
    }

    /// The folder entries, in insertion order.
    pub fn folders(&self) -> (entries: &Vec<FolderEntry>)
        ensures
            folder_records(entries@) == self@.folders,
    {
        &self.folders
    }

    /// The file entries, in insertion order.
    pub fn files(&self) -> (entries: &Vec<FileEntry>)
        ensures
            file_records(entries@) == self@.files,
    {
        &self.files
    }

    /// Copies out both collections, each in insertion order.
    pub fn snapshot(&self) -> (copy: (Vec<FolderEntry>, Vec<FileEntry>))
        ensures
            folder_records(copy.0@) == self@.folders,
            file_records(copy.1@) == self@.files,
    {
        let mut folders: Vec<FolderEntry> = Vec::new();
        let mut i: usize = 0;
        while i < self.folders.len()
            invariant
                i <= self.folders.len(),
                folders.len() == i,
                forall|k: int| 0 <= k < i ==> folders@[k]@ == self.folders@[k]@,
            decreases self.folders.len() - i,
        {
            folders.push(self.folders[i].clone());
            i += 1;
        }
        assert(folder_records(folders@) =~= folder_records(self.folders@));
        let mut files: Vec<FileEntry> = Vec::new();
        let mut j: usize = 0;
        while j < self.files.len()
            invariant
                j <= self.files.len(),
                files.len() == j,
                forall|k: int| 0 <= k < j ==> files@[k]@ == self.files@[k]@,
            decreases self.files.len() - j,
        {
            files.push(self.files[j].clone());
            j += 1;
        }
        assert(file_records(files@) =~= file_records(self.files@));
        (folders, files)
    }
}

} // verus!
