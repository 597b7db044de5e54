//! Human-readable one-line reports for the error types the driver surfaces.

use vstd::prelude::*;
use crate::document::FwHTMLError;
use crate::fs_tree::{FsTreeLoadError, ParsedFsTreeParseError};
use crate::ir::SourceFormatError;
use crate::source::SourceDirOpenError;

verus! {

/// The report for a source-loading failure.
pub fn err_source_load(err: &SourceDirOpenError) -> (r: String)
    ensures
        match err {
            SourceDirOpenError::MissingFile(f) => r@ == "Couldn't read file: "@ + f@,
            SourceDirOpenError::NoSuchDirectory(d) => r@ == "No such directory: "@ + d@,
        },
{
    proof {
        reveal_strlit("Couldn't read file: ");
        reveal_strlit("No such directory: ");
    }
    match err {
        SourceDirOpenError::MissingFile(f) => {
            let mut out = ("Couldn't read file: ").to_owned();
            out.append(f.as_str());
            out
        },
        SourceDirOpenError::NoSuchDirectory(d) => {
            let mut out = ("No such directory: ").to_owned();
            out.append(d.as_str());
            out
        },
    }
}

/// The report for a raw-tree loading failure.
pub fn err_fs_tree_open(err: &FsTreeLoadError) -> (r: String)
    ensures
        match err {
            FsTreeLoadError::CantReadPath(path, e) => r@ == path@ + ": "@ + e@,
            FsTreeLoadError::UnparsableFilename(path) => r@ == "Can't parse filename of: "@
                + path@,
            FsTreeLoadError::IsSymlink(path) => r@ == "Unexpected symlink at: "@ + path@,
        },
{
    proof {
        reveal_strlit(": ");
        reveal_strlit("Can't parse filename of: ");
        reveal_strlit("Unexpected symlink at: ");
    }
    match err {
        FsTreeLoadError::CantReadPath(path, e) => {
            let mut out = path.clone();
            out.append(": ");
            out.append(e.as_str());
            out
        },
        FsTreeLoadError::UnparsableFilename(path) => {
            let mut out = ("Can't parse filename of: ").to_owned();
            out.append(path.as_str());
            out
        },
        FsTreeLoadError::IsSymlink(path) => {
            let mut out = ("Unexpected symlink at: ").to_owned();
            out.append(path.as_str());
            out
        },
    }
}

/// The report for markup that could not be wrapped.
pub fn err_fw_html(err: &FwHTMLError) -> (r: String)
    ensures
        match err {
            FwHTMLError::NotATemplate => r@ == "the markup does not begin with <!DOCTYPE html>"@,
            FwHTMLError::DocumentContainsErrors(_) => r@ == "the markup did not parse cleanly"@,
        },
{
    proof {
        reveal_strlit("the markup does not begin with <!DOCTYPE html>");
        reveal_strlit("the markup did not parse cleanly");
    }
    match err {
        FwHTMLError::NotATemplate => ("the markup does not begin with <!DOCTYPE html>").to_owned(),
        FwHTMLError::DocumentContainsErrors(_) => ("the markup did not parse cleanly").to_owned(),
    }
}

/// The report for a page-tree parsing failure.
pub fn err_fs_tree_parse(err: &ParsedFsTreeParseError) -> (r: String)
    ensures
        match err {
            ParsedFsTreeParseError::InvalidBuildProcedure(path, _) => r@
                == "Invalid build procedure at: "@ + path@,
        },
{
    proof {
        reveal_strlit("Invalid build procedure at: ");
    }
    match err {
        ParsedFsTreeParseError::InvalidBuildProcedure(path, _) => {
            let mut out = ("Invalid build procedure at: ").to_owned();
            out.append(path.as_str());
            out
        },
    }
}

/// The report for source files that do not form a valid site.
pub fn err_source_format(err: &SourceFormatError) -> (r: String)
    ensures
        match err {
            SourceFormatError::InvalidYaml(file, _) => r@ == "Invalid yml file: "@ + file@,
            SourceFormatError::InvalidTemplateHTML(file, _) => r@ == "Invalid HTML in file: "@
                + file@,
            SourceFormatError::BadWebsiteYaml => r@ == "website.yml in not in expected format"@,
            SourceFormatError::InvalidCSS(e) => r@ == "Invalid CSS in file: "@ + e.filename@,
            SourceFormatError::InvalidFsTree(e) => match e {
                ParsedFsTreeParseError::InvalidBuildProcedure(path, _) => r@
                    == "Invalid build procedure at: "@ + path@,
            },
        },
{
    proof {
        reveal_strlit("Invalid yml file: ");
        reveal_strlit("Invalid HTML in file: ");
        reveal_strlit("website.yml in not in expected format");
        reveal_strlit("Invalid CSS in file: ");
    }
    match err {
        SourceFormatError::InvalidYaml(file, _) => {
            let mut out = ("Invalid yml file: ").to_owned();
            out.append(file.as_str());
            out
        },
        SourceFormatError::InvalidTemplateHTML(file, _) => {
            let mut out = ("Invalid HTML in file: ").to_owned();
            out.append(file.as_str());
            out
        },
        SourceFormatError::BadWebsiteYaml => ("website.yml in not in expected format").to_owned(),
        SourceFormatError::InvalidCSS(e) => {
            let mut out = ("Invalid CSS in file: ").to_owned();
            out.append(e.filename.as_str());
            out
        },
        SourceFormatError::InvalidFsTree(e) => err_fs_tree_parse(e),
    }
}

} // verus!
