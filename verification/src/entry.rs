//! The records of a catalog: one per folder and one per file.
use crate::ident::{identify, path_id};
use vstd::prelude::*;

verus! {

/// A folder that a crawl has seen.
#[derive(Debug, PartialEq, Eq)]
pub struct FolderEntry {
    /// Identifier of `path`.
    pub id: u64,
    /// Absolute path of the folder.
    pub path: String,
    /// Identifier of the containing folder; `None` for a crawl root.
    pub parent_id: Option<u64>,
}

/// A regular file that a crawl has seen.
#[derive(Debug, PartialEq, Eq)]
pub struct FileEntry {
    /// Identifier of `path`.
    pub id: u64,
    /// Absolute path of the file.
    pub path: String,
    /// Length in bytes, as it was when the file was seen.
    pub size: u64,
    /// Identifier of the containing folder; `None` for a crawl root.
    pub parent_id: Option<u64>,
}

/// What a [`FolderEntry`] stands for.
pub struct FolderRecord {
    pub id: u64,
    pub path: Seq<char>,
    pub parent_id: Option<u64>,
}

/// What a [`FileEntry`] stands for.
pub struct FileRecord {
    pub id: u64,
    pub path: Seq<char>,
    pub size: u64,
    pub parent_id: Option<u64>,
}

impl FolderRecord {
    /// The record of the folder at `path` under `parent_id`.
    pub open spec fn at(path: Seq<char>, parent_id: Option<u64>) -> FolderRecord {
        FolderRecord { id: path_id(path), path, parent_id }
    }

    /// The identifier is the one that belongs to the path.
    pub open spec fn consistent(self) -> bool {
        self.id == path_id(self.path)
    }
}

impl FileRecord {
    /// The record of the file at `path`, `size` bytes long, under `parent_id`.
    pub open spec fn at(path: Seq<char>, size: u64, parent_id: Option<u64>) -> FileRecord {
        FileRecord { id: path_id(path), path, size, parent_id }
    }

    /// The identifier is the one that belongs to the path.
    pub open spec fn consistent(self) -> bool {
        self.id == path_id(self.path)
    }
}

impl View for FolderEntry {
    type V = FolderRecord;

    open spec fn view(&self) -> FolderRecord {
        FolderRecord { id: self.id, path: self.path@, parent_id: self.parent_id }
    }
}

impl View for FileEntry {
    type V = FileRecord;

    open spec fn view(&self) -> FileRecord {
        FileRecord { id: self.id, path: self.path@, size: self.size, parent_id: self.parent_id }
    }
}

impl FolderEntry {
    /// Builds the entry of the folder at `path`, computing its identifier.
    pub fn new(path: String, parent_id: Option<u64>) -> (entry: FolderEntry)
        ensures
            entry@ == FolderRecord::at(path@, parent_id),
    {
        let id = identify(path.as_str());
        FolderEntry { id, path, parent_id }
    }
}

impl FileEntry {
    /// Builds the entry of the file at `path`, computing its identifier.
    pub fn new(path: String, size: u64, parent_id: Option<u64>) -> (entry: FileEntry)
        ensures
            entry@ == FileRecord::at(path@, size, parent_id),
    {
        let id = identify(path.as_str());
        FileEntry { id, path, size, parent_id }
    }
}

impl Clone for FolderEntry {
    fn clone(&self) -> (copy: FolderEntry)
        ensures
            copy@ == self@,
    {
        FolderEntry { id: self.id, path: self.path.clone(), parent_id: self.parent_id }
    }
}

impl Clone for FileEntry {
    fn clone(&self) -> (copy: FileEntry)
        ensures
            copy@ == self@,
    {
        FileEntry {
            id: self.id,
            path: self.path.clone(),
            size: self.size,
            parent_id: self.parent_id,
        }
    }
}

} // verus!
