//! The flat records that are uploaded, one per catalog entry.
use crate::catalog::{file_records, folder_records, Catalog, CatalogView};
use crate::entry::{FileEntry, FileRecord, FolderEntry, FolderRecord};
use vstd::prelude::*;

verus! {

/// A catalog entry as the search index stores it.
#[derive(Debug, PartialEq, Eq)]
pub struct Document {
    pub id: u64,
    pub path: String,
    /// Length in bytes; folders have none.
    pub size: Option<u64>,
    /// Identifier of the containing folder; `None` for a crawl root.
    pub parent_id: Option<u64>,
}

/// What a [`Document`] stands for.
pub struct DocumentView {
    pub id: u64,
    pub path: Seq<char>,
    pub size: Option<u64>,
    pub parent_id: Option<u64>,
}

impl DocumentView {
    /// The document of a folder record: its fields, and no size.
    pub open spec fn of_folder(record: FolderRecord) -> DocumentView {
        DocumentView { id: record.id, path: record.path, size: None, parent_id: record.parent_id }
    }

    /// The document of a file record: its fields.
    pub open spec fn of_file(record: FileRecord) -> DocumentView {
        DocumentView {
            id: record.id,
            path: record.path,
            size: Some(record.size),
            parent_id: record.parent_id,
        }
    }

    /// The documents of a catalog: those of its folders in their order, then
    /// those of its files in theirs.
    pub open spec fn of_catalog(catalog: CatalogView) -> Seq<DocumentView> {
        catalog.folders.map_values(|r: FolderRecord| DocumentView::of_folder(r))
            + catalog.files.map_values(|r: FileRecord| DocumentView::of_file(r))
    }
}

impl View for Document {
    type V = DocumentView;

    open spec fn view(&self) -> DocumentView {
        DocumentView { id: self.id, path: self.path@, size: self.size, parent_id: self.parent_id }
    }
}

/// The documents that a sequence of [`Document`] values stands for.
pub open spec fn document_views(documents: Seq<Document>) -> Seq<DocumentView> {
    documents.map_values(|d: Document| d@)
}

impl Clone for Document {
    fn clone(&self) -> (copy: Document)
        ensures
            copy@ == self@,
    {
        Document {
            id: self.id,
            path: self.path.clone(),
            size: self.size,
            parent_id: self.parent_id,
        }
    }
}

impl Document {
    /// Flattens a folder entry.
    pub fn from_folder(entry: &FolderEntry) -> (document: Document)
        ensures
            document@ == DocumentView::of_folder(entry@),
    {
        Document { id: entry.id, path: entry.path.clone(), size: None, parent_id: entry.parent_id }
    }

    /// Flattens a file entry.
    pub fn from_file(entry: &FileEntry) -> (document: Document)
        ensures
            document@ == DocumentView::of_file(entry@),
    {
        Document {
            id: entry.id,
            path: entry.path.clone(),
            size: Some(entry.size),
            parent_id: entry.parent_id,
        }
    }
}

/// Flattens a whole catalog: one document per entry, folders first.
pub fn documents(catalog: &Catalog) -> (all: Vec<Document>)
    ensures
        document_views(all@) == DocumentView::of_catalog(catalog@),
        all.len() == catalog@.len(),
{
    let folders = catalog.folders();
    let files = catalog.files();
    let ghost folder_docs = catalog@.folders.map_values(|r: FolderRecord| DocumentView::of_folder(r));
    let ghost file_docs = catalog@.files.map_values(|r: FileRecord| DocumentView::of_file(r));
    let mut all: Vec<Document> = Vec::new();
    let mut i: usize = 0;
    while i < folders.len()
        invariant
            i <= folders.len(),
            folder_records(folders@) == catalog@.folders,
            folder_docs == catalog@.folders.map_values(|r: FolderRecord| DocumentView::of_folder(r)),
            document_views(all@) =~= folder_docs.take(i as int),
        decreases folders.len() - i,
    {
        let document = Document::from_folder(&folders[i]);
        assert(document@ == folder_docs[i as int]) by {
            assert(folder_records(folders@)[i as int] == folders@[i as int]@);
        }
        let ghost before = document_views(all@);
        all.push(document);
        assert(document_views(all@) =~= before.push(document@));
        assert(folder_docs.take(i + 1) =~= folder_docs.take(i as int).push(folder_docs[i as int]));
        i += 1;
    }
    assert(folder_docs.take(i as int) =~= folder_docs);
    let mut j: usize = 0;
    while j < files.len()
        invariant
            j <= files.len(),
            file_records(files@) == catalog@.files,
            file_docs == catalog@.files.map_values(|r: FileRecord| DocumentView::of_file(r)),
            document_views(all@) =~= folder_docs + file_docs.take(j as int),
        decreases files.len() - j,
    {
        let document = Document::from_file(&files[j]);
        assert(document@ == file_docs[j as int]) by {
            assert(file_records(files@)[j as int] == files@[j as int]@);
        }
        let ghost before = document_views(all@);
        all.push(document);
        assert(document_views(all@) =~= before.push(document@));
        assert(file_docs.take(j + 1) =~= file_docs.take(j as int).push(file_docs[j as int]));
        j += 1;
    }
    assert(file_docs.take(j as int) =~= file_docs);
    all
}

} // verus!
