//! Source files loaded into memory, not yet validated.

use vstd::prelude::*;
use crate::fs_tree::FsTree;

verus! {

/// Source files loaded into memory.
///
/// Not responsible for validating the contents of said files.
#[derive(Debug)]
pub struct SourceDir {
    /// Contents of the website.yml file.
    pub website_yml: String,
    /// Template file names and content.
    ///
    /// Example entry: `"base-page.html", "<!DOCTYPE html>..."`
    pub templates: Vec<(String, String)>,
    /// Component ids and file content.
    ///
    /// Example entry: `"footer", "<footer>...</footer>"`
    pub components: Vec<(String, String)>,
    pub layout_css: String,
    pub style_css: String,
    pub pages: FsTree,
    pub static_files: Vec<(String, Vec<u8>)>,
}

/// Why loading the source files failed.
#[derive(Debug)]
pub enum SourceDirOpenError {
    MissingFile(String),
    NoSuchDirectory(String),
}

/// The name carries the `.html` extension.
pub open spec fn ends_with_html(s: Seq<char>) -> bool {
    s.len() >= 5 && s.subrange(s.len() - 5, s.len() as int) == ".html"@
}

/// The name with its `.html` extension removed.
pub open spec fn html_stem(s: Seq<char>) -> Seq<char> {
    s.subrange(0, s.len() - 5)
}

/// The component ids and texts a list of file entries yields: names with the
/// `.html` extension, stripped of it; other entries dropped.
pub open spec fn component_ids_spec(files: Seq<(String, String)>) -> Seq<(Seq<char>, Seq<char>)>
    decreases files.len(),
{
    if files.len() == 0 {
        Seq::empty()
    } else {
        let head = files[0];
        let rest = component_ids_spec(files.drop_first());
        if ends_with_html(head.0@) {
            seq![(head.0@.subrange(0, head.0@.len() - 5), head.1@)] + rest
        } else {
            rest
        }
    }
}

/// Strip the `.html` suffix from each file name, keeping only entries that
/// have it: component ids are their file names without the extension.
pub fn component_ids(files: Vec<(String, String)>) -> (r: Vec<(String, String)>)
    ensures
        r@.map_values(|p: (String, String)| (p.0@, p.1@)) == component_ids_spec(files@),
{
    let mut r: Vec<(String, String)> = Vec::new();
    proof {
        assert(files@.skip(0) =~= files@);
        assert(r@.map_values(|p: (String, String)| (p.0@, p.1@)) + component_ids_spec(files@)
            =~= component_ids_spec(files@));
    }
    let mut i: usize = 0;
    while i < files.len()
        invariant
            i <= files@.len(),
            component_ids_spec(files@) == r@.map_values(|p: (String, String)| (p.0@, p.1@))
                + component_ids_spec(files@.skip(i as int)),
        decreases files@.len() - i,
    {
        let ghost pre = files@.skip(i as int);
        proof {
            assert(pre[0] == files@[i as int]);
            assert(pre.drop_first() =~= files@.skip(i + 1));
        }
        let name = &files[i].0;
        let n = name.as_str().unicode_len();
        proof {
            reveal_strlit(".html");
        }
        if n >= 5 && crate::text::has_match_at(name.as_str(), ".html", n - 5) {
            let stem = name.as_str().substring_char(0, n - 5).to_owned();
            let ghost r_old = r@;
            r.push((stem, files[i].1.clone()));
            proof {
                assert(ends_with_html(files@[i as int].0@)) by {
                    assert(name@.subrange(n - 5, n as int) =~= ".html"@);
                }
                assert(r@.map_values(|p: (String, String)| (p.0@, p.1@)) =~= r_old.map_values(
                    |p: (String, String)| (p.0@, p.1@),
                ) + seq![(files@[i as int].0@.subrange(0, n - 5), files@[i as int].1@)]);
            }
        } else {
            proof {
                if ends_with_html(files@[i as int].0@) {
                    assert(crate::text::match_at(name@, ".html"@, n - 5));
                }
            }
        }
        i = i + 1;
    }
    proof {
        assert(files@.skip(files@.len() as int) =~= Seq::empty());
        assert(component_ids_spec(files@) =~= r@.map_values(|p: (String, String)| (p.0@, p.1@)));
    }
    r
}

} // verus!
