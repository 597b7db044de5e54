//! Static-website build core: template documents with `{{ name }}` and
//! `{{ components/name }}` placeholders, build procedures that bind variables
//! to values step by step, and directory indexes that render sibling pages
//! newest-first.

pub mod document;
pub mod fs_tree;
pub mod ir;
pub mod laws;
pub mod model;
pub mod procedure;
pub mod report;
pub mod scan;
pub mod sitemap;
pub mod source;
pub mod strmap;
pub mod text;
pub mod trusted;
pub mod value;
pub mod website;
pub mod yaml;
