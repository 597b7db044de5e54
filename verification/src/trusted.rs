//! Bridges to the outside crates that do work this library does not model
//! character by character: calendar formatting, Markdown conversion, and HTML
//! parsing. Each result that depends on the arguments alone is given a name
//! that the callers' contracts speak of.

use vstd::prelude::*;

verus! {

/// Whether `chrono::DateTime::from_timestamp` accepts the instant, after the
/// cast of the seconds to a signed 64-bit integer.
pub uninterp spec fn timestamp_in_range(secs: u64) -> bool;

/// The RFC 3339 rendering chrono gives the instant.
pub uninterp spec fn rfc3339_of(secs: u64) -> Seq<char>;

/// The `YYYY-MM-DD` rendering chrono gives the instant.
pub uninterp spec fn date_of(secs: u64) -> Seq<char>;

/// Relies on chrono: `DateTime::from_timestamp` returns `None` exactly when
/// the instant is out of chrono's calendar range; `to_rfc3339` and
/// `format("%Y-%m-%d")` are functions of the instant alone.
#[verifier::external_body]
pub fn render_timestamp(secs: u64) -> (r: Option<(String, String)>)
    ensures
        r is Some <==> timestamp_in_range(secs),
        r matches Some(p) ==> p.0@ == rfc3339_of(secs) && p.1@ == date_of(secs),
{
    match chrono::DateTime::from_timestamp(secs as i64, 0) {
        None => None,
        Some(t) => Some((t.to_rfc3339(), t.format("%Y-%m-%d").to_string())),
    }
}

/// Whether `chrono::DateTime::from_timestamp_millis` accepts the instant.
pub uninterp spec fn millis_in_range(ms: i64) -> bool;

/// The `YYYY-MM-DD` rendering chrono gives the millisecond instant.
pub uninterp spec fn date_of_millis(ms: i64) -> Seq<char>;

/// Relies on chrono: `DateTime::from_timestamp_millis` returns `None` exactly
/// when the instant is out of chrono's calendar range, and
/// `format("%Y-%m-%d")` is a function of the instant alone.
#[verifier::external_body]
pub fn render_date_millis(ms: i64) -> (r: Option<String>)
    ensures
        r is Some <==> millis_in_range(ms),
        r matches Some(d) ==> d@ == date_of_millis(ms),
{
    chrono::DateTime::from_timestamp_millis(ms).map(|t| t.format("%Y-%m-%d").to_string())
}

/// The HTML fragment the CommonMark renderer gives the source text.
pub uninterp spec fn markdown_html_of(s: Seq<char>) -> Seq<char>;

/// Relies on pulldown_cmark: `Parser::new` with default options and
/// `html::push_html` convert Markdown to an HTML fragment, a function of the
/// source text alone.
#[verifier::external_body]
pub fn markdown_to_html(md: &str) -> (r: String)
    ensures
        r@ == markdown_html_of(md@),
{
    let parser = pulldown_cmark::Parser::new(md);
    let mut html = String::new();
    pulldown_cmark::html::push_html(&mut html, parser);
    html
}

/// The CSS class names the HTML parser finds in the markup, in document
/// order; a function of the markup text alone.
pub uninterp spec fn classes_of(s: Seq<char>) -> Seq<Seq<char>>;

/// Relies on `scraper::Html::parse_document` and ego_tree's traversal:
/// collects the class list of every element the parser recognises.
#[verifier::external_body]
pub fn classes(html: &str) -> (r: Vec<String>)
    ensures
        r.deep_view() == classes_of(html@),
{
    let document = scraper::Html::parse_document(html);
    let mut found = Vec::new();
    for edge in document.tree.root().traverse() {
        if let ego_tree::iter::Edge::Open(node) = edge {
            if let Some(element) = node.value().as_element() {
                for c in element.classes() {
                    found.push(c.to_string());
                }
            }
        }
    }
    found
}

} // verus!
