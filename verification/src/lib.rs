//! Catalog directory trees and plan the upload of the catalog to a search
//! index.
//!
//! The crate holds the decisions of an indexing pipeline and none of its
//! input or output.
//!
//! * [`ident`] gives every path string a 64-bit identifier.
//! * [`paths`] builds the path of a directory member from the directory's
//!   path and the member's name.
//! * [`entry`] and [`catalog`] hold what a crawl records: one entry for each
//!   folder and each file, with its path, its identifier and the identifier
//!   of the folder it was found in.
//! * [`crawler`] decides which paths are read and what is recorded. A
//!   caller reads the filesystem, on as many workers as the crawler was
//!   started with, and tells the crawler what it found.
//! * [`document`], [`batch`] and [`publish`] turn a catalog into bulk
//!   requests of bounded size. A caller sends the requests and tells the
//!   publisher how each was answered; a rejected batch is retried after a
//!   growing delay, a bounded number of times.
//!
//! The remaining modules state what the above guarantees. [`linkage`] shows
//! that every entry but a root has its folder in the catalog. [`tree`] and
//! [`walk`] show that a crawl records each directory and file of a tree
//! exactly once, in whatever order and on however many workers the paths
//! are read, and [`progress`] that it comes to its end. [`session`] shows
//! that an upload sends every batch, and fails only after it has retried.
pub mod batch;
pub mod catalog;
pub mod crawler;
pub mod document;
pub mod entry;
pub mod ident;
pub mod linkage;
pub mod paths;
pub mod progress;
pub mod publish;
pub mod session;
pub mod tree;
pub mod walk;
