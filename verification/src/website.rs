//! Assembling the whole site: every page built from its procedure, canonical
//! aliases for non-index pages, stylesheets and static assets passed through,
//! and the sitemap appended.

use vstd::prelude::*;
use crate::fs_tree::{filter_spec, last_dot, ParsedFsEntry};
use crate::ir::IR;
use crate::model;
use crate::procedure::BuildProcedureBuildError;
use crate::sitemap::SiteMapBuilder;
use crate::text;

verus! {

/// One output file's content: page text, or bytes passed through.
#[derive(Debug)]
pub enum PageContent {
    Text(String),
    Binary(Vec<u8>),
}

/// The mathematical shape of one output file's content.
#[verifier::ext_equal]
pub enum PageContentV {
    Text(Seq<char>),
    Binary(Seq<u8>),
}

impl View for PageContent {
    type V = PageContentV;

    open spec fn view(&self) -> PageContentV {
        match self {
            PageContent::Text(s) => PageContentV::Text(s@),
            PageContent::Binary(b) => PageContentV::Binary(b@),
        }
    }
}

/// The finished site: output paths and contents in emission order, plus the
/// modification log to save for the next run.
#[derive(Debug)]
pub struct Website {
    pub pages: Vec<(String, PageContent)>,
    pub modifications: String,
}

/// The mathematical shape of an output list.
pub open spec fn pages_view(v: Seq<(String, PageContent)>) -> Seq<(Seq<char>, PageContentV)> {
    v.map_values(|p: (String, PageContent)| (p.0@, p.1@))
}

proof fn lemma_pages_view(v: Seq<(String, PageContent)>)
    ensures
        pages_view(v).len() == v.len(),
        forall|q: int|
            0 <= q < v.len() ==> #[trigger] pages_view(v)[q] == (v[q].0@, v[q].1@),
{
}

impl View for Website {
    type V = Seq<(Seq<char>, PageContentV)>;

    open spec fn view(&self) -> Seq<(Seq<char>, PageContentV)> {
        pages_view(self.pages@)
    }
}

/// The names and contents of the loaded static assets.
pub open spec fn statics_view(v: Seq<(String, Vec<u8>)>) -> Seq<(Seq<char>, Seq<u8>)> {
    v.map_values(|p: (String, Vec<u8>)| (p.0@, p.1@))
}

proof fn lemma_statics_view(v: Seq<(String, Vec<u8>)>)
    ensures
        statics_view(v).len() == v.len(),
        forall|q: int|
            0 <= q < v.len() ==> #[trigger] statics_view(v)[q] == (v[q].0@, v[q].1@),
{
}

/// Static assets as binary output pages.
pub open spec fn statics_part(statics: Seq<(Seq<char>, Seq<u8>)>) -> Seq<
    (Seq<char>, PageContentV),
> {
    statics.map_values(|p: (Seq<char>, Seq<u8>)| (p.0, PageContentV::Binary(p.1)))
}

proof fn lemma_statics_part(statics: Seq<(Seq<char>, Seq<u8>)>)
    ensures
        statics_part(statics).len() == statics.len(),
        forall|q: int|
            0 <= q < statics.len() ==> #[trigger] statics_part(statics)[q] == (
                statics[q].0,
                PageContentV::Binary(statics[q].1),
            ),
{
}

/// Built pages as text output pages.
pub open spec fn texts_part(htmls: Seq<(Seq<char>, Seq<char>)>) -> Seq<
    (Seq<char>, PageContentV),
> {
    htmls.map_values(|p: (Seq<char>, Seq<char>)| (p.0, PageContentV::Text(p.1)))
}

proof fn lemma_texts_part(htmls: Seq<(Seq<char>, Seq<char>)>)
    ensures
        texts_part(htmls).len() == htmls.len(),
        forall|q: int|
            0 <= q < htmls.len() ==> #[trigger] texts_part(htmls)[q] == (
                htmls[q].0,
                PageContentV::Text(htmls[q].1),
            ),
{
}

proof fn lemma_sm_entries(
    htmls: Seq<(Seq<char>, Seq<char>)>,
    root: Seq<char>,
    old_log: Seq<char>,
    now: i64,
)
    ensures
        sm_entries(htmls, root, old_log, now).len() == htmls.len(),
        forall|q: int|
            0 <= q < htmls.len() ==> #[trigger] sm_entries(htmls, root, old_log, now)[q] == (
                root + crate::sitemap::stripped_path(htmls[q].0),
                lastmod_of(htmls[q].1, old_log, now),
                None::<Seq<char>>,
            ),
{
}

/// Pushing one built page extends the output view by one text page.
proof fn lemma_build_step(
    bp_old: Seq<(String, PageContent)>,
    bp_new: Seq<(String, PageContent)>,
    base: Seq<(Seq<char>, PageContentV)>,
    htmls_old: Seq<(Seq<char>, Seq<char>)>,
    path: Seq<char>,
    html: Seq<char>,
    x: (String, PageContent),
)
    requires
        bp_new == bp_old.push(x),
        x.0@ == path,
        x.1@ == PageContentV::Text(html),
        pages_view(bp_old) == base + texts_part(htmls_old),
    ensures
        pages_view(bp_new) == base + texts_part(htmls_old.push((path, html))),
{
    let htmls_new = htmls_old.push((path, html));
    lemma_pages_view(bp_old);
    lemma_pages_view(bp_new);
    lemma_texts_part(htmls_old);
    lemma_texts_part(htmls_new);
    assert forall|q: int| 0 <= q < bp_new.len() implies #[trigger] pages_view(bp_new)[q] == (
    base + texts_part(htmls_new))[q] by {
        if q < bp_old.len() {
            assert(bp_new[q] == bp_old[q]);
            assert(pages_view(bp_old)[q] == (base + texts_part(htmls_old))[q]);
            if q >= base.len() {
                assert(texts_part(htmls_old)[q - base.len()] == texts_part(htmls_new)[q
                    - base.len()]);
            }
        } else {
            assert(bp_new[q] == x);
            assert(texts_part(htmls_new)[q - base.len()] == (path, PageContentV::Text(html)));
        }
    }
    assert(pages_view(bp_new) =~~= base + texts_part(htmls_new));
}

/// Pushing one sitemap entry extends the entry view by one page's entry.
proof fn lemma_sm_step(
    htmls_old: Seq<(Seq<char>, Seq<char>)>,
    path: Seq<char>,
    html: Seq<char>,
    root: Seq<char>,
    old_log: Seq<char>,
    now: i64,
    ev_new: Seq<(Seq<char>, Seq<char>, Option<Seq<char>>)>,
)
    requires
        ev_new == sm_entries(htmls_old, root, old_log, now).push(
            (root + crate::sitemap::stripped_path(path), lastmod_of(html, old_log, now), None),
        ),
    ensures
        ev_new == sm_entries(htmls_old.push((path, html)), root, old_log, now),
{
    let htmls_new = htmls_old.push((path, html));
    lemma_sm_entries(htmls_old, root, old_log, now);
    lemma_sm_entries(htmls_new, root, old_log, now);
    assert forall|q: int| 0 <= q < htmls_new.len() implies #[trigger] ev_new[q] == sm_entries(
        htmls_new,
        root,
        old_log,
        now,
    )[q] by {
        if q < htmls_old.len() {
            assert(htmls_new[q] == htmls_old[q]);
            assert(ev_new[q] == sm_entries(htmls_old, root, old_log, now)[q]);
        } else {
            assert(htmls_new[q] == (path, html));
        }
    }
    assert(ev_new =~~= sm_entries(htmls_new, root, old_log, now));
}

/// The filtered entries a borrowed filter result denotes.
pub open spec fn scripts_view<'a>(v: Seq<(String, &'a ParsedFsEntry)>) -> Seq<
    (Seq<char>, ParsedFsEntry),
> {
    v.map_values(|p: (String, &'a ParsedFsEntry)| (p.0@, *p.1))
}

proof fn lemma_scripts_view<'a>(v: Seq<(String, &'a ParsedFsEntry)>)
    ensures
        scripts_view(v).len() == v.len(),
        forall|q: int|
            0 <= q < v.len() ==> #[trigger] scripts_view(v)[q] == (v[q].0@, *v[q].1),
{
}

/// The path with its extension replaced by `html` (or `.html` appended when
/// it has none).
pub open spec fn set_ext_html(p: Seq<char>) -> Seq<char> {
    if last_dot(p) >= 0 {
        p.subrange(0, last_dot(p) + 1) + "html"@
    } else {
        p + "."@ + "html"@
    }
}

/// The path relative to the output root: a leading `pages/` removed.
pub open spec fn strip_pages_prefix(p: Seq<char>) -> Seq<char> {
    if text::match_at(p, "pages/"@, 0) {
        p.subrange(6, p.len() as int)
    } else {
        p
    }
}

/// Where a procedure's page is emitted.
pub open spec fn emit_path(p: Seq<char>) -> Seq<char> {
    strip_pages_prefix(set_ext_html(p))
}

/// The emitted pages of the filtered procedure entries from `j` on, or the
/// first build error.
pub open spec fn pages_results(
    entries: Seq<(Seq<char>, ParsedFsEntry)>,
    j: int,
    ir: model::IrV,
) -> Result<Seq<(Seq<char>, Seq<char>)>, Seq<model::ErrStep>>
    decreases entries.len() - j,
{
    if j < 0 || j >= entries.len() {
        Ok(Seq::empty())
    } else {
        match entries[j].1 {
            ParsedFsEntry::BuildProcedure(p) => match model::exec_proc(
                p@,
                ir,
                model::MAX_INDEX_DEPTH as nat,
            ) {
                Err(e) => Err(e),
                Ok(h) => match pages_results(entries, j + 1, ir) {
                    Err(e) => Err(e),
                    Ok(rest) => Ok(seq![(emit_path(entries[j].0), h)] + rest),
                },
            },
            _ => pages_results(entries, j + 1, ir),
        }
    }
}

/// The position of the path's last slash, or a negative value.
pub open spec fn last_slash(s: Seq<char>) -> int
    decreases s.len(),
{
    if s.len() == 0 {
        -1
    } else if s.last() == '/' {
        s.len() - 1
    } else {
        last_slash(s.drop_last())
    }
}

/// The page's file name without the `.html` extension.
pub open spec fn alias_stem(p: Seq<char>) -> Seq<char> {
    p.subrange(last_slash(p) + 1, p.len() - 5)
}

/// The path ends with `.html`.
pub open spec fn ends_html(p: Seq<char>) -> bool {
    p.len() >= 5 && text::match_at(p, ".html"@, p.len() - 5)
}

/// The path ends with `index.html`.
pub open spec fn ends_index_html(p: Seq<char>) -> bool {
    p.len() >= 10 && text::match_at(p, "index.html"@, p.len() - 10)
}

/// A page gets a directory alias when its text sits under a `.html` path
/// that is not already an index.
pub open spec fn gets_alias(p: (Seq<char>, PageContentV)) -> bool {
    ends_html(p.0) && !ends_index_html(p.0) && p.1 is Text
}

/// The canonical link inserted into an alias's head.
pub open spec fn canonical_link(p: Seq<char>) -> Seq<char> {
    "<link rel=\"canonical\" href=\"/"@ + p + "\" />"@
}

/// An alias page: the name turned into a directory with an `index.html`, the
/// content with a canonical link inserted before the head's close.
pub open spec fn alias_of(p: (Seq<char>, PageContentV)) -> (Seq<char>, PageContentV) {
    let name_html = alias_stem(p.0) + ".html"@;
    let idx_path = text::replace_from(p.0, name_html, alias_stem(p.0) + "/index.html"@, 0);
    let content = text::replace_first_from(
        p.1->Text_0,
        "</head>"@,
        canonical_link(p.0) + "</head>"@,
        0,
    );
    (idx_path, PageContentV::Text(content))
}

/// The aliases of the pages from `j` on, in order.
pub open spec fn aliases_of(pages: Seq<(Seq<char>, PageContentV)>, j: int) -> Seq<
    (Seq<char>, PageContentV),
>
    decreases pages.len() - j,
{
    if j < 0 || j >= pages.len() {
        Seq::empty()
    } else if gets_alias(pages[j]) {
        seq![alias_of(pages[j])] + aliases_of(pages, j + 1)
    } else {
        aliases_of(pages, j + 1)
    }
}

/// The sitemap entries the emitted pages yield, in order.
pub open spec fn sm_entries(
    htmls: Seq<(Seq<char>, Seq<char>)>,
    root: Seq<char>,
    old_log: Seq<char>,
    now: i64,
) -> Seq<(Seq<char>, Seq<char>, Option<Seq<char>>)> {
    htmls.map_values(
        |p: (Seq<char>, Seq<char>)|
            (
                root + crate::sitemap::stripped_path(p.0),
                lastmod_of(p.1, old_log, now),
                None::<Seq<char>>,
            ),
    )
}

/// The last-modified date a page's text gets, from the modification log or
/// the present clock reading.
pub open spec fn lastmod_of(h: Seq<char>, old_log: Seq<char>, now: i64) -> Seq<char> {
    let hash = text::dec_str(
        crate::sitemap::fnv64_spec(vstd::utf8::encode_utf8(h)) as int,
    );
    let ts = match crate::sitemap::mod_lookup(old_log, hash, 0) {
        Some(t) => t,
        None => now,
    };
    if crate::trusted::millis_in_range(ts) {
        crate::trusted::date_of_millis(ts)
    } else {
        Seq::<char>::empty()
    }
}

/// The modification-log entry one page's text yields.
pub open spec fn log_entry_of(h: Seq<char>, old_log: Seq<char>, now: i64) -> (Seq<char>, i64) {
    let hash = text::dec_str(
        crate::sitemap::fnv64_spec(vstd::utf8::encode_utf8(h)) as int,
    );
    let ts = match crate::sitemap::mod_lookup(old_log, hash, 0) {
        Some(t) => t,
        None => now,
    };
    (hash, ts)
}

/// The modification-log entries the emitted pages yield, in order.
pub open spec fn sm_log(
    htmls: Seq<(Seq<char>, Seq<char>)>,
    old_log: Seq<char>,
    now: i64,
) -> Seq<(Seq<char>, i64)> {
    htmls.map_values(|p: (Seq<char>, Seq<char>)| log_entry_of(p.1, old_log, now))
}

proof fn lemma_sm_log(htmls: Seq<(Seq<char>, Seq<char>)>, old_log: Seq<char>, now: i64)
    ensures
        sm_log(htmls, old_log, now).len() == htmls.len(),
        forall|q: int|
            0 <= q < htmls.len() ==> #[trigger] sm_log(htmls, old_log, now)[q] == log_entry_of(
                htmls[q].1,
                old_log,
                now,
            ),
{
}

/// Pushing one log entry extends the log view by one page's entry.
proof fn lemma_log_step(
    htmls_old: Seq<(Seq<char>, Seq<char>)>,
    path: Seq<char>,
    html: Seq<char>,
    old_log: Seq<char>,
    now: i64,
    lv_new: Seq<(Seq<char>, i64)>,
)
    requires
        lv_new == sm_log(htmls_old, old_log, now).push(log_entry_of(html, old_log, now)),
    ensures
        lv_new == sm_log(htmls_old.push((path, html)), old_log, now),
{
    let htmls_new = htmls_old.push((path, html));
    lemma_sm_log(htmls_old, old_log, now);
    lemma_sm_log(htmls_new, old_log, now);
    assert forall|q: int| 0 <= q < htmls_new.len() implies #[trigger] lv_new[q] == sm_log(
        htmls_new,
        old_log,
        now,
    )[q] by {
        if q < htmls_old.len() {
            assert(htmls_new[q] == htmls_old[q]);
            assert(lv_new[q] == sm_log(htmls_old, old_log, now)[q]);
        } else {
            assert(htmls_new[q] == (path, html));
        }
    }
    assert(lv_new =~~= sm_log(htmls_new, old_log, now));
}

/// The sitemap text the emitted pages yield.
pub open spec fn sitemap_text(
    htmls: Seq<(Seq<char>, Seq<char>)>,
    root: Seq<char>,
    old_log: Seq<char>,
    now: i64,
) -> Seq<char> {
    "<urlset>"@ + crate::sitemap::entries_xml(sm_entries(htmls, root, old_log, now), 0)
        + "</urlset>"@
}

/// Everything the site holds, in emission order: static assets, the two
/// stylesheets, the built pages, their aliases, and the sitemap.
pub open spec fn site_pages(
    statics: Seq<(Seq<char>, Seq<u8>)>,
    layout: Seq<char>,
    style: Seq<char>,
    htmls: Seq<(Seq<char>, Seq<char>)>,
    root: Seq<char>,
    old_log: Seq<char>,
    now: i64,
) -> Seq<(Seq<char>, PageContentV)> {
    let base = statics_part(statics) + seq![
        ("layout.css"@, PageContentV::Text(layout)),
        ("style.css"@, PageContentV::Text(style)),
    ] + texts_part(htmls);
    base + aliases_of(base, 0) + seq![
        ("sitemap.xml"@, PageContentV::Text(sitemap_text(htmls, root, old_log, now))),
    ]
}

/// The path with its extension replaced by `html`.
fn replace_ext_html(p: &str) -> (r: String)
    ensures
        r@ == set_ext_html(p@),
{
    proof {
        reveal_strlit("html");
        reveal_strlit(".");
    }
    let n = p.unicode_len();
    let mut i = n;
    proof {
        assert(p@.take(n as int) =~= p@);
    }
    while i > 0 && p.get_char(i - 1) as u32 != 46
        invariant
            n == p@.len(),
            i <= n,
            last_dot(p@) == last_dot(p@.take(i as int)),
        decreases i,
    {
        proof {
            assert(p@.take(i as int).last() == p@[i - 1]);
            assert(p@[i - 1] as u32 != 46 ==> p@[i - 1] != '.');
            assert(p@.take(i as int).drop_last() =~= p@.take(i - 1));
        }
        i = i - 1;
    }
    if i > 0 {
        proof {
            assert(p@.take(i as int).last() == p@[i - 1]);
            assert(p@[i - 1] as u32 == 46 ==> p@[i - 1] == '.');
            assert(last_dot(p@.take(i as int)) == i - 1);
        }
        let mut out = p.substring_char(0, i).to_owned();
        out.append("html");
        proof {
            assert(out@ =~= set_ext_html(p@));
        }
        out
    } else {
        proof {
            assert(p@.take(0) =~= Seq::<char>::empty());
        }
        let mut out = p.to_owned();
        out.append(".");
        out.append("html");
        proof {
            assert(out@ =~= set_ext_html(p@));
        }
        out
    }
}

/// The path with a leading `pages/` removed.
fn strip_pages(p: &str) -> (r: String)
    ensures
        r@ == strip_pages_prefix(p@),
{
    proof {
        reveal_strlit("pages/");
    }
    if crate::text::has_match_at(p, "pages/", 0) {
        p.substring_char(6, p.unicode_len()).to_owned()
    } else {
        p.to_owned()
    }
}

impl Website {
    /// Build every page of the site: static assets and stylesheets pass
    /// through, every `.yml` procedure in the page tree is executed, each
    /// non-index page gets a directory alias with a canonical link, and the
    /// sitemap is appended. The first failing procedure aborts the build.
    #[verifier::rlimit(100)]
    pub fn build(source: &IR, old_modifications: String, now_millis: i64) -> (r: Result<
        Website,
        BuildProcedureBuildError,
    >)
        ensures
            ({
                let entries = filter_spec(source.pages, "yml"@);
                let statics = statics_view(source.static_assets@);
                let root = crate::sitemap::normalized_root(source.config.url@);
                match r {
                    Err(e) => pages_results(entries, 0, source@) == Err::<
                        Seq<(Seq<char>, Seq<char>)>,
                        _,
                    >(crate::model::build_err_trace(e)),
                    Ok(w) => pages_results(entries, 0, source@) matches Ok(htmls) && w@
                        == site_pages(
                        statics,
                        source.layout_css@,
                        source.style_css@,
                        htmls,
                        root,
                        old_modifications@,
                        now_millis,
                    ) && w.modifications@ == crate::sitemap::log_text(
                        sm_log(htmls, old_modifications@, now_millis),
                        0,
                    ),
                }
            }),
    {
        let ghost entries_v = filter_spec(source.pages, "yml"@);
        let ghost irv = source@;
        let mut build_pages: Vec<(String, PageContent)> = Vec::new();
        let mut i: usize = 0;
        proof {
            lemma_statics_view(source.static_assets@);
            assert(pages_view(build_pages@) =~= statics_part(
                statics_view(source.static_assets@).take(0),
            ));
        }
        while i < source.static_assets.len()
            invariant
                i <= source.static_assets@.len(),
                build_pages@.len() == i,
                pages_view(build_pages@) == statics_part(
                    statics_view(source.static_assets@).take(i as int),
                ),
            decreases source.static_assets@.len() - i,
        {
            let ghost sv = statics_view(source.static_assets@);
            let asset = &source.static_assets[i];
            let content = asset.1.clone();
            proof {
                assert forall|q: int| 0 <= q < content@.len() implies content@[q]
                    == asset.1@[q] by {
                    assert(cloned::<u8>(asset.1@[q], content@[q]));
                }
                assert(content@ =~= asset.1@);
            }
            let name = asset.0.clone();
            let ghost bp_old = build_pages@;
            build_pages.push((name, PageContent::Binary(content)));
            proof {
                lemma_pages_view(build_pages@);
                lemma_pages_view(bp_old);
                lemma_statics_view(source.static_assets@);
                lemma_statics_part(sv.take(i as int));
                lemma_statics_part(sv.take(i + 1));
                assert(sv.take(i + 1).len() == i + 1);
                assert forall|q: int| 0 <= q < i + 1 implies #[trigger] pages_view(
                    build_pages@,
                )[q] == statics_part(sv.take(i + 1))[q] by {
                    assert(sv.take(i + 1)[q] == sv[q]);
                    if q < i {
                        assert(build_pages@[q] == bp_old[q]);
                        assert(pages_view(bp_old)[q] == statics_part(sv.take(i as int))[q]);
                        assert(sv.take(i as int)[q] == sv[q]);
                    } else {
                        assert(build_pages@[q] == (name, PageContent::Binary(content)));
                        assert(sv[q] == (asset.0@, asset.1@));
                    }
                }
                assert(pages_view(build_pages@) =~~= statics_part(sv.take(i + 1)));
            }
            i = i + 1;
        }
        proof {
            assert(statics_view(source.static_assets@).take(
                source.static_assets@.len() as int,
            ) =~= statics_view(source.static_assets@));
        }
        build_pages.push((("layout.css").to_owned(), PageContent::Text(source.layout_css.clone())));
        build_pages.push((("style.css").to_owned(), PageContent::Text(source.style_css.clone())));
        let ghost statics_v = statics_view(source.static_assets@);
        let ghost base_prefix = statics_part(statics_v) + seq![
            ("layout.css"@, PageContentV::Text(source.layout_css@)),
            ("style.css"@, PageContentV::Text(source.style_css@)),
        ];
        proof {
            lemma_pages_view(build_pages@);
            lemma_statics_part(statics_v);
            assert(pages_view(build_pages@) =~~= base_prefix);
        }
        let build_scripts = source.pages.filter("yml");
        proof {
            lemma_scripts_view(build_scripts@);
            assert forall|q: int| 0 <= q < build_scripts@.len() implies #[trigger] scripts_view(
                build_scripts@,
            )[q] == entries_v[q] by {
                assert(build_scripts@.map_values(
                    |p: (String, &ParsedFsEntry)| (p.0@, *p.1),
                )[q] == entries_v[q]);
            }
            assert(scripts_view(build_scripts@) =~~= entries_v);
        }
        let mut sitemap = SiteMapBuilder::new(
            source.config.url.clone(),
            old_modifications,
            now_millis,
        );
        let ghost root_v = sitemap.root_text();
        let ghost old_log_v = sitemap.old_log_text();
        let mut j: usize = 0;
        let ghost mut htmls_v: Seq<(Seq<char>, Seq<char>)> = Seq::empty();
        proof {
            lemma_texts_part(htmls_v);
            assert(pages_view(build_pages@) =~= base_prefix + texts_part(htmls_v));
            assert(sitemap.entries_view() =~~= sm_entries(htmls_v, root_v, old_log_v, now_millis));
            assert(sitemap.log_view() =~~= sm_log(htmls_v, old_log_v, now_millis));
        }
        while j < build_scripts.len()
            invariant
                irv == source@,
                entries_v == filter_spec(source.pages, "yml"@),
                scripts_view(build_scripts@) == entries_v,
                j <= build_scripts@.len(),
                root_v == sitemap.root_text(),
                old_log_v == sitemap.old_log_text(),
                now_millis == sitemap.clock(),
                statics_v == statics_view(source.static_assets@),
                base_prefix == statics_part(statics_v) + seq![
                    ("layout.css"@, PageContentV::Text(source.layout_css@)),
                    ("style.css"@, PageContentV::Text(source.style_css@)),
                ],
                pages_view(build_pages@) == base_prefix + texts_part(htmls_v),
                sitemap.entries_view() == sm_entries(htmls_v, root_v, old_log_v, now_millis),
                sitemap.log_view() == sm_log(htmls_v, old_log_v, now_millis),
                pages_results(entries_v, 0, irv) == (match pages_results(
                    entries_v,
                    j as int,
                    irv,
                ) {
                    Err(e) => Err(e),
                    Ok(rest) => Ok(htmls_v + rest),
                }),
            decreases build_scripts@.len() - j,
        {
            let entry = &build_scripts[j];
            proof {
                lemma_scripts_view(build_scripts@);
                assert(entries_v[j as int] == (entry.0@, *entry.1));
            }
            match entry.1 {
                ParsedFsEntry::BuildProcedure(proc) => {
                    let with_ext = replace_ext_html(entry.0.as_str());
                    let path = strip_pages(with_ext.as_str());
                    let html = match proc.execute(source) {
                        Err(e) => {
                            return Err(e);
                        },
                        Ok(h) => h,
                    };
                    let bytes = html.as_str().as_bytes_vec();
                    sitemap.add(path.clone(), &bytes);
                    let ghost htmls_old = htmls_v;
                    let ghost bp_old = build_pages@;
                    proof {
                        htmls_v = htmls_v.push((path@, html@));
                    }
                    build_pages.push((path, PageContent::Text(html)));
                    proof {
                        lemma_build_step(
                            bp_old,
                            build_pages@,
                            base_prefix,
                            htmls_old,
                            htmls_v.last().0,
                            htmls_v.last().1,
                            build_pages@.last(),
                        );
                        assert(htmls_old.push((htmls_v.last().0, htmls_v.last().1)) =~= htmls_v);
                        lemma_sm_step(
                            htmls_old,
                            htmls_v.last().0,
                            htmls_v.last().1,
                            root_v,
                            old_log_v,
                            now_millis,
                            sitemap.entries_view(),
                        );
                        lemma_log_step(
                            htmls_old,
                            htmls_v.last().0,
                            htmls_v.last().1,
                            old_log_v,
                            now_millis,
                            sitemap.log_view(),
                        );
                        assert(pages_results(entries_v, j as int, irv) == (match pages_results(
                            entries_v,
                            j + 1,
                            irv,
                        ) {
                            Err(e) => Err(e),
                            Ok(rest) => Ok(
                                seq![(emit_path(entries_v[j as int].0), html@)] + rest,
                            ),
                        }));
                        if pages_results(entries_v, j + 1, irv) is Ok {
                            assert(htmls_old + (seq![(emit_path(entries_v[j as int].0), html@)]
                                + pages_results(entries_v, j + 1, irv)->Ok_0) =~= htmls_v
                                + pages_results(entries_v, j + 1, irv)->Ok_0);
                        }
                    }
                },
                _ => {
                },
            }
            j = j + 1;
        }
        proof {
            assert(htmls_v + Seq::<(Seq<char>, Seq<char>)>::empty() =~= htmls_v);
        }
        let ghost base_v = pages_view(build_pages@);
        let mut aliases: Vec<(String, PageContent)> = Vec::new();
        let mut k: usize = 0;
        proof {
            reveal_strlit(".html");
            reveal_strlit("index.html");
            assert(pages_view(aliases@) + aliases_of(base_v, 0) =~= aliases_of(base_v, 0));
        }
        while k < build_pages.len()
            invariant
                k <= build_pages@.len(),
                base_v == pages_view(build_pages@),
                base_v.len() == build_pages@.len(),
                pages_view(aliases@) + aliases_of(base_v, k as int) == aliases_of(base_v, 0),
            decreases build_pages@.len() - k,
        {
            proof {
                reveal_strlit(".html");
                reveal_strlit("index.html");
                lemma_pages_view(build_pages@);
            }
            let page = &build_pages[k];
            proof {
                assert(base_v[k as int] == (page.0@, page.1@));
            }
            let pn = page.0.as_str().unicode_len();
            let is_html = pn >= 5 && crate::text::has_match_at(page.0.as_str(), ".html", pn - 5);
            let is_index = pn >= 10 && crate::text::has_match_at(
                page.0.as_str(),
                "index.html",
                pn - 10,
            );
            let mut took = false;
            if is_html && !is_index {
                match &page.1 {
                    PageContent::Text(content) => {
                        took = true;
                        let alias = make_alias(page.0.as_str(), content.as_str());
                        let ghost a_old = aliases@;
                        aliases.push(alias);
                        proof {
                            lemma_pages_view(aliases@);
                            lemma_pages_view(a_old);
                            assert(gets_alias(base_v[k as int]));
                            assert((alias.0@, alias.1@) == alias_of(base_v[k as int]));
                            assert(pages_view(aliases@) =~~= pages_view(a_old).push(
                                alias_of(base_v[k as int]),
                            ));
                            assert(pages_view(a_old).push(alias_of(base_v[k as int]))
                                + aliases_of(base_v, k + 1) =~= pages_view(a_old) + aliases_of(
                                base_v,
                                k as int,
                            ));
                        }
                    },
                    _ => {
                    },
                }
            }
            proof {
                if !took {
                    assert(!gets_alias(base_v[k as int]));
                }
            }
            k = k + 1;
        }
        proof {
            assert(aliases_of(base_v, base_v.len() as int) =~= Seq::<
                (Seq<char>, PageContentV),
            >::empty());
            assert(pages_view(aliases@) + Seq::<(Seq<char>, PageContentV)>::empty()
                =~= pages_view(aliases@));
        }
        let ghost aliases_v = pages_view(aliases@);
        let ghost bp_before = build_pages@;
        build_pages.append(&mut aliases);
        let xml = sitemap.build();
        proof {
            reveal_strlit("sitemap.xml");
        }
        let ghost bp_with_aliases = build_pages@;
        build_pages.push((("sitemap.xml").to_owned(), PageContent::Text(xml)));
        let modifications = sitemap.modifications_text();
        let w = Website { pages: build_pages, modifications };
        proof {
            lemma_pages_view(w.pages@);
            lemma_pages_view(bp_before);
            lemma_pages_view(bp_with_aliases);
            assert(w@ =~~= base_v + aliases_v + seq![
                (
                    "sitemap.xml"@,
                    PageContentV::Text(sitemap_text(htmls_v, root_v, old_log_v, now_millis)),
                ),
            ]);
        }
        Ok(w)
    }

    /// Validates generated files for unresolved variables and components.
    ///
    /// True exactly when no page text under a `.html` path still holds a
    /// placeholder.
    pub fn validate(&self) -> (r: bool)
        ensures
            r == forall|i: int|
                0 <= i < self@.len() && ends_html(#[trigger] self@[i].0) && self@[i].1 is Text
                    ==> !has_unresolved(self@[i].1->Text_0),
    {
        proof {
            reveal_strlit(".html");
        }
        let mut valid = true;
        let ghost mut witness: int = 0;
        let mut i: usize = 0;
        while i < self.pages.len()
            invariant
                i <= self.pages@.len(),
                valid ==> forall|k: int|
                    0 <= k < i && ends_html(#[trigger] self@[k].0) && self@[k].1 is Text
                        ==> !has_unresolved(self@[k].1->Text_0),
                !valid ==> 0 <= witness < i && ends_html(self@[witness].0) && self@[witness].1
                    is Text && has_unresolved(self@[witness].1->Text_0),
            decreases self.pages@.len() - i,
        {
            proof {
                reveal_strlit(".html");
            }
            let page = &self.pages[i];
            proof {
                assert(self@[i as int] == (page.0@, page.1@));
            }
            let pn = page.0.as_str().unicode_len();
            if pn >= 5 && crate::text::has_match_at(page.0.as_str(), ".html", pn - 5) {
                match &page.1 {
                    PageContent::Text(content) => {
                        if has_unresolved_placeholder(content.as_str()) {
                            valid = false;
                            proof {
                                witness = i as int;
                            }
                        }
                    },
                    _ => {
                    },
                }
            } else {
                proof {
                    assert(!ends_html(self@[i as int].0));
                }
            }
            i = i + 1;
        }
        valid
    }
}

/// The alias page of a non-index page: the canonical link added to its head
/// and the name turned into a directory index.
fn make_alias(path: &str, content: &str) -> (r: (String, PageContent))
    requires
        ends_html(path@),
    ensures
        (r.0@, r.1@) == alias_of((path@, PageContentV::Text(content@))),
{
    proof {
        reveal_strlit(".html");
        reveal_strlit("/index.html");
        reveal_strlit("</head>");
        reveal_strlit("<link rel=\"canonical\" href=\"/");
        reveal_strlit("\" />");
    }
    let n = path.unicode_len();
    let mut i = n;
    proof {
        assert(path@.take(n as int) =~= path@);
    }
    while i > 0 && path.get_char(i - 1) as u32 != 47
        invariant
            n == path@.len(),
            i <= n,
            last_slash(path@) == last_slash(path@.take(i as int)),
        decreases i,
    {
        proof {
            assert(path@.take(i as int).last() == path@[i - 1]);
            assert(path@[i - 1] as u32 != 47 ==> path@[i - 1] != '/');
            assert(path@.take(i as int).drop_last() =~= path@.take(i - 1));
        }
        i = i - 1;
    }
    proof {
        if i > 0 {
            assert(path@.take(i as int).last() == path@[i - 1]);
            assert(path@[i - 1] as u32 == 47 ==> path@[i - 1] == '/');
            assert(last_slash(path@.take(i as int)) == i - 1);
        } else {
            assert(path@.take(0) =~= Seq::<char>::empty());
        }
        crate::text::lemma_match_at_chars(path@, ".html"@, path@.len() - 5);
        lemma_last_slash(path@);
        assert(last_slash(path@) < path@.len() - 5) by {
            let d = last_slash(path@);
            if d >= path@.len() - 5 {
                assert(path@[(path@.len() - 5) + (d - (path@.len() - 5))] == (".html"@)[d - (
                path@.len() - 5)]);
                assert(false);
            }
        }
    }
    let stem = path.substring_char(i, n - 5);
    proof {
        assert(stem@ =~= alias_stem(path@));
    }
    let mut name_html = stem.to_owned();
    name_html.append(".html");
    let mut name_index = stem.to_owned();
    name_index.append("/index.html");
    let idx_path = crate::text::str_replace(path, name_html.as_str(), name_index.as_str());
    let mut canonical = ("<link rel=\"canonical\" href=\"/").to_owned();
    canonical.append(path);
    canonical.append("\" />");
    canonical.append("</head>");
    let content2 = crate::text::str_replace_first(content, "</head>", canonical.as_str());
    proof {
        assert(name_html@ =~= alias_stem(path@) + ".html"@);
        assert(name_index@ =~= alias_stem(path@) + "/index.html"@);
        assert(canonical@ =~= canonical_link(path@) + "</head>"@);
    }
    (idx_path, PageContent::Text(content2))
}

proof fn lemma_last_slash(s: Seq<char>)
    ensures
        -1 <= last_slash(s) < s.len(),
        last_slash(s) >= 0 ==> s[last_slash(s)] == '/',
        forall|k: int| last_slash(s) < k < s.len() ==> s[k] != '/',
    decreases s.len(),
{
    if s.len() > 0 && s.last() != '/' {
        lemma_last_slash(s.drop_last());
        assert(forall|k: int| 0 <= k < s.len() - 1 ==> s[k] == s.drop_last()[k]);
    }
}

/// Whether the markup still holds any `{{ ... }}` token with no whitespace
/// inside: an unresolved placeholder.
pub open spec fn is_space_char(c: char) -> bool {
    c == ' ' || c == '\t' || c == '\n' || c == '\r' || c as int == 11 || c as int == 12
}

/// The first whitespace character at or after `i`, or the length.
pub open spec fn space_pos(s: Seq<char>, i: int) -> int
    decreases s.len() - i,
{
    if i < 0 || i >= s.len() {
        s.len() as int
    } else if is_space_char(s[i]) {
        i
    } else {
        space_pos(s, i + 1)
    }
}

/// An unresolved placeholder starts at `i`: `{{ `, a run without whitespace,
/// then ` }}`.
pub open spec fn unresolved_at(s: Seq<char>, i: int) -> bool {
    &&& text::match_at(s, "{{ "@, i)
    &&& {
        let j = space_pos(s, i + 3);
        j + 3 <= s.len() && text::match_at(s, " }}"@, j)
    }
}

pub open spec fn has_unresolved(s: Seq<char>) -> bool {
    exists|i: int| unresolved_at(s, i)
}

proof fn lemma_space_pos(s: Seq<char>, i: int)
    requires
        0 <= i <= s.len(),
    ensures
        i <= space_pos(s, i) <= s.len(),
        space_pos(s, i) < s.len() ==> is_space_char(s[space_pos(s, i)]),
        forall|k: int| i <= k < space_pos(s, i) ==> !is_space_char(s[k]),
    decreases s.len() - i,
{
    if i < s.len() && !is_space_char(s[i]) {
        lemma_space_pos(s, i + 1);
    }
}

fn space_char(c: char) -> (r: bool)
    ensures
        r == is_space_char(c),
{
    let u = c as u32;
    u == 32 || u == 9 || u == 10 || u == 13 || u == 11 || u == 12
}

fn find_space(s: &str, i: usize) -> (r: usize)
    requires
        i <= s@.len(),
    ensures
        r as int == space_pos(s@, i as int),
{
    let n = s.unicode_len();
    let mut k = i;
    while k < n && !space_char(s.get_char(k))
        invariant
            n == s@.len(),
            i <= k <= n,
            space_pos(s@, i as int) == space_pos(s@, k as int),
        decreases n - k,
    {
        k = k + 1;
    }
    k
}

/// Whether the markup still holds an unresolved placeholder.
pub fn has_unresolved_placeholder(s: &str) -> (r: bool)
    ensures
        r == has_unresolved(s@),
{
    let n = s.unicode_len();
    let mut i: usize = 0;
    while i < n
        invariant
            n == s@.len(),
            i <= n,
            forall|k: int| 0 <= k < i ==> !unresolved_at(s@, k),
        decreases n - i,
    {
        proof {
            reveal_strlit("{{ ");
            reveal_strlit(" }}");
        }
        if crate::text::has_match_at(s, "{{ ", i) {
            let j = find_space(s, i + 3);
            proof {
                lemma_space_pos(s@, i + 3);
            }
            if n - j >= 3 && crate::text::has_match_at(s, " }}", j) {
                proof {
                    assert(unresolved_at(s@, i as int));
                }
                return true;
            }
        }
        i = i + 1;
    }
    proof {
        reveal_strlit("{{ ");
        assert forall|k: int| !unresolved_at(s@, k) by {
            if unresolved_at(s@, k) {
                assert(text::match_at(s@, "{{ "@, k));
                assert(0 <= k < n);
            }
        }
    }
    false
}

} // verus!
