use indexer::catalog::Catalog;
use indexer::document::{documents, Document};
use indexer::entry::{FileEntry, FolderEntry};
use indexer::ident::identify;

#[test]
fn new_entries_carry_the_identifier_of_their_path() {
    let folder = FolderEntry::new(String::from("/data/a"), None);
    assert_eq!(folder.id, identify("/data/a"));
    assert_eq!(folder.path, "/data/a");
    assert_eq!(folder.parent_id, None);

    let file = FileEntry::new(String::from("/data/a/x.txt"), 10, Some(folder.id));
    assert_eq!(file.id, identify("/data/a/x.txt"));
    assert_eq!(file.path, "/data/a/x.txt");
    assert_eq!(file.size, 10);
    assert_eq!(file.parent_id, Some(identify("/data/a")));
}

#[test]
fn a_new_catalog_is_empty() {
    let catalog = Catalog::new();
    assert_eq!(catalog.folder_count(), 0);
    assert_eq!(catalog.file_count(), 0);
    let (folders, files) = catalog.snapshot();
    assert!(folders.is_empty());
    assert!(files.is_empty());
}

#[test]
fn entries_stay_in_insertion_order() {
    let mut catalog = Catalog::new();
    catalog.add_folder(FolderEntry::new(String::from("/b"), None));
    catalog.add_file(FileEntry::new(String::from("/b/2"), 2, Some(identify("/b"))));
    catalog.add_folder(FolderEntry::new(String::from("/a"), None));
    catalog.add_file(FileEntry::new(String::from("/b/1"), 1, Some(identify("/b"))));

    assert_eq!(catalog.folder_count(), 2);
    assert_eq!(catalog.file_count(), 2);
    let (folders, files) = catalog.snapshot();
    assert_eq!(folders[0], FolderEntry::new(String::from("/b"), None));
    assert_eq!(folders[1], FolderEntry::new(String::from("/a"), None));
    assert_eq!(files[0].path, "/b/2");
    assert_eq!(files[1].path, "/b/1");
    assert_eq!(catalog.folders()[1].path, "/a");
    assert_eq!(catalog.files()[0].size, 2);
}

#[test]
fn a_snapshot_is_a_copy() {
    let mut catalog = Catalog::new();
    catalog.add_folder(FolderEntry::new(String::from("/a"), None));
    let (folders, files) = catalog.snapshot();
    catalog.add_folder(FolderEntry::new(String::from("/b"), None));
    catalog.add_file(FileEntry::new(String::from("/a/f"), 3, Some(identify("/a"))));
    assert_eq!(folders.len(), 1);
    assert_eq!(files.len(), 0);
    assert_eq!(catalog.folder_count(), 2);
    assert_eq!(catalog.file_count(), 1);
}

#[test]
fn a_catalog_takes_the_same_entry_twice() {
    let mut catalog = Catalog::new();
    catalog.add_file(FileEntry::new(String::from("/f"), 1, None));
    catalog.add_file(FileEntry::new(String::from("/f"), 1, None));
    assert_eq!(catalog.file_count(), 2);
}

#[test]
fn cloned_entries_are_equal_to_their_source() {
    let folder = FolderEntry::new(String::from("/data"), Some(7));
    assert_eq!(folder.clone(), folder);
    let file = FileEntry::new(String::from("/data/f"), 99, Some(folder.id));
    assert_eq!(file.clone(), file);
}

#[test]
fn a_folder_document_has_no_size() {
    let folder = FolderEntry::new(String::from("/data/a"), Some(5));
    let document = Document::from_folder(&folder);
    assert_eq!(
        document,
        Document { id: identify("/data/a"), path: String::from("/data/a"), size: None, parent_id: Some(5) }
    );
}

#[test]
fn a_file_document_has_its_size() {
    let file = FileEntry::new(String::from("/data/a/x.txt"), 10, None);
    let document = Document::from_file(&file);
    assert_eq!(
        document,
        Document {
            id: identify("/data/a/x.txt"),
            path: String::from("/data/a/x.txt"),
            size: Some(10),
            parent_id: None
        }
    );
    assert_eq!(document.clone(), document);
}

#[test]
fn documents_list_folders_before_files() {
    let mut catalog = Catalog::new();
    catalog.add_file(FileEntry::new(String::from("/a/1"), 1, Some(identify("/a"))));
    catalog.add_folder(FolderEntry::new(String::from("/a"), None));
    catalog.add_file(FileEntry::new(String::from("/a/2"), 0, Some(identify("/a"))));
    let all = documents(&catalog);
    assert_eq!(all.len(), 3);
    assert_eq!(all[0].path, "/a");
    assert_eq!(all[0].size, None);
    assert_eq!(all[1].path, "/a/1");
    assert_eq!(all[1].size, Some(1));
    assert_eq!(all[2].path, "/a/2");
    assert_eq!(all[2].size, Some(0));
    assert_eq!(all[2].parent_id, Some(identify("/a")));
}

#[test]
fn an_empty_catalog_has_no_documents() {
    assert!(documents(&Catalog::new()).is_empty());
}
