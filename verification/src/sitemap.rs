//! Sitemap assembly: page locations with last-modified dates, the dates
//! remembered across runs by content checksum.

use vstd::prelude::*;
use crate::text::{dec_str, parse_i64_spec};

verus! {

/// The checksum state folded over a byte, FNV-1a style.
pub open spec fn fnv_step(acc: u64, b: u8) -> u64 {
    vstd::wrapping::u64_specs::wrapping_mul(acc ^ (b as u64), 0x100000001b3)
}

pub open spec fn fnv_from(s: Seq<u8>, i: int, acc: u64) -> u64
    decreases s.len() - i,
{
    if i < 0 || i >= s.len() {
        acc
    } else {
        fnv_from(s, i + 1, fnv_step(acc, s[i]))
    }
}

/// The content checksum used as the key in the modification log.
pub open spec fn fnv64_spec(s: Seq<u8>) -> u64 {
    fnv_from(s, 0, 0xcbf29ce484222325)
}

/// The FNV-1a checksum of the bytes.
pub fn fnv64(content: &Vec<u8>) -> (r: u64)
    ensures
        r == fnv64_spec(content@),
{
    let mut acc: u64 = 0xcbf29ce484222325;
    let mut i: usize = 0;
    while i < content.len()
        invariant
            i <= content@.len(),
            fnv64_spec(content@) == fnv_from(content@, i as int, acc),
        decreases content@.len() - i,
    {
        acc = (acc ^ (content[i] as u64)).wrapping_mul(0x100000001b3);
        i = i + 1;
    }
    acc
}

/// The first newline at or after `i`, or the length.
pub open spec fn line_end(s: Seq<char>, i: int) -> int
    decreases s.len() - i,
{
    if i < 0 || i >= s.len() {
        s.len() as int
    } else if s[i] == '\n' {
        i
    } else {
        line_end(s, i + 1)
    }
}

proof fn lemma_line_end(s: Seq<char>, i: int)
    requires
        0 <= i <= s.len(),
    ensures
        i <= line_end(s, i) <= s.len(),
    decreases s.len() - i,
{
    if i < s.len() && s[i] != '\n' {
        lemma_line_end(s, i + 1);
    }
}

fn find_line_end(s: &str, i: usize) -> (r: usize)
    requires
        i <= s@.len(),
    ensures
        r as int == line_end(s@, i as int),
{
    let n = s.unicode_len();
    let mut k = i;
    while k < n && s.get_char(k) as u32 != 10
        invariant
            n == s@.len(),
            i <= k <= n,
            line_end(s@, i as int) == line_end(s@, k as int),
        decreases n - k,
    {
        proof {
            assert(s@[k as int] as u32 != 10 ==> s@[k as int] != '\n');
        }
        k = k + 1;
    }
    proof {
        if k < n {
            assert(s@[k as int] as u32 == 10 ==> s@[k as int] == '\n');
        }
    }
    k
}

/// What one log line yields for the checksum: the line must start with the
/// checksum, a comma, and a signed timestamp.
pub open spec fn line_match(line: Seq<char>, hash: Seq<char>) -> Option<i64> {
    if line.len() > hash.len() && line.subrange(0, hash.len() as int) == hash && line[
        hash.len() as int
    ] == ',' {
        parse_i64_spec(line.subrange(hash.len() as int + 1, line.len() as int))
    } else {
        None
    }
}

/// The timestamp the modification log remembers for the checksum: the first
/// matching line's.
pub open spec fn mod_lookup(old: Seq<char>, hash: Seq<char>, i: int) -> Option<i64>
    decreases old.len() - i + 1,
    via mod_lookup_dec
{
    if i < 0 || i > old.len() {
        None
    } else {
        let e = line_end(old, i);
        match line_match(old.subrange(i, e), hash) {
            Some(t) => Some(t),
            None => if e >= old.len() {
                None
            } else {
                mod_lookup(old, hash, e + 1)
            },
        }
    }
}

#[via_fn]
proof fn mod_lookup_dec(old: Seq<char>, hash: Seq<char>, i: int) {
    if 0 <= i <= old.len() {
        lemma_line_end(old, i);
    }
}

/// The decimal rendering of a signed integer.
pub open spec fn i64_dec_str(n: i64) -> Seq<char> {
    if n < 0 {
        seq!['-'] + dec_str(-(n as int))
    } else {
        dec_str(n as int)
    }
}

/// The decimal rendering of an `i64`.
pub fn i64_to_string(n: i64) -> (r: String)
    ensures
        r@ == i64_dec_str(n),
{
    if n < 0 {
        let m: u64 = (-(n as i128)) as u64;
        let mut out = ("-").to_owned();
        out.append(crate::text::u64_to_string(m).as_str());
        proof {
            reveal_strlit("-");
            assert(out@ =~= i64_dec_str(n));
        }
        out
    } else {
        crate::text::u64_to_string(n as u64)
    }
}

/// Remembers, for each content checksum, when that content was first seen:
/// known checksums keep their recorded timestamp, new ones are stamped with
/// the present run's clock reading.
pub struct ModificationTimestampResolver {
    old_txt: String,
    queried: Vec<(String, i64)>,
}

impl ModificationTimestampResolver {
    /// The previously saved log text.
    pub closed spec fn old_text(&self) -> Seq<char> {
        self.old_txt@
    }

    /// The lookups made this run, in order.
    pub closed spec fn queried_log(&self) -> Seq<(Seq<char>, i64)> {
        self.queried@.map_values(|p: (String, i64)| (p.0@, p.1))
    }

    /// Start from the saved log text; the caller reads it from storage.
    pub fn new(old_modifications: String) -> (r: Self)
        ensures
            r.old_text() == old_modifications@,
            r.queried_log() == Seq::<(Seq<char>, i64)>::empty(),
    {
        let r = ModificationTimestampResolver { old_txt: old_modifications, queried: Vec::new() };
        proof {
            assert(r.queried_log() =~= Seq::<(Seq<char>, i64)>::empty());
        }
        r
    }

    /// The content's last-modified date: the logged timestamp of its
    /// checksum, or the present clock reading for content seen first now;
    /// rendered as `YYYY-MM-DD`, or empty for an instant out of calendar
    /// range.
    pub fn get_change_time(&mut self, content: &Vec<u8>, now_millis: i64) -> (r: String)
        ensures
            ({
                let hash = dec_str(fnv64_spec(content@) as int);
                let ts = match mod_lookup(old(self).old_text(), hash, 0) {
                    Some(t) => t,
                    None => now_millis,
                };
                &&& final(self).old_text() == old(self).old_text()
                &&& final(self).queried_log() == old(self).queried_log().push((hash, ts))
                &&& r@ == if crate::trusted::millis_in_range(ts) {
                    crate::trusted::date_of_millis(ts)
                } else {
                    Seq::<char>::empty()
                }
            }),
    {
        let hash = crate::text::u64_to_string(fnv64(content));
        let timestamp = match self.lookup(hash.as_str()) {
            Some(t) => t,
            None => now_millis,
        };
        let ghost pre = self.queried@.map_values(|p: (String, i64)| (p.0@, p.1));
        self.queried.push((hash, timestamp));
        proof {
            assert(self.queried_log() =~= pre.push(
                (self.queried@.last().0@, self.queried@.last().1),
            ));
        }
        match crate::trusted::render_date_millis(timestamp) {
            Some(d) => d,
            None => String::new(),
        }
    }

    fn lookup(&self, hash: &str) -> (r: Option<i64>)
        ensures
            r == mod_lookup(self.old_text(), hash@, 0),
    {
        let s = self.old_txt.as_str();
        let n = s.unicode_len();
        let mut i: usize = 0;
        loop
            invariant
                n == s@.len(),
                s@ == self.old_text(),
                0 <= i <= n,
                mod_lookup(self.old_text(), hash@, 0) == mod_lookup(
                    self.old_text(),
                    hash@,
                    i as int,
                ),
            decreases n - i,
        {
            let e = find_line_end(s, i);
            proof {
                lemma_line_end(s@, i as int);
            }
            let line = s.substring_char(i, e);
            let hn = hash.unicode_len();
            let ln = line.unicode_len();
            if ln > hn && crate::text::has_match_at(line, hash, 0) && line.get_char(hn) as u32
                == 44 {
                proof {
                    assert(line@[hn as int] as u32 == 44 ==> line@[hn as int] == ',');
                    assert(line@.subrange(0, hn as int) == hash@);
                }
                let rest = line.substring_char(hn + 1, ln);
                proof {
                    assert(rest@ =~= line@.subrange(hn + 1, line@.len() as int));
                }
                if let Some(t) = crate::text::parse_i64_str(rest) {
                    return Some(t);
                }
            } else {
                proof {
                    if line_match(line@, hash@) is Some {
                        assert(line@.subrange(0, hash@.len() as int) =~= hash@);
                    }
                }
            }
            if e >= n {
                return None;
            }
            i = e + 1;
        }
    }

    /// The log text to save for the next run: one `checksum,timestamp` line
    /// per lookup, newline separated.
    pub fn save_text(&self) -> (r: String)
        ensures
            r@ == log_text(self.queried_log(), 0),
    {
        let mut out = String::new();
        let mut i: usize = 0;
        proof {
            reveal_strlit(",");
            reveal_strlit("\n");
        }
        while i < self.queried.len()
            invariant
                i <= self.queried@.len(),
                log_text(self.queried_log(), 0) == out@ + log_text(
                    self.queried_log(),
                    i as int,
                ),
        decreases self.queried@.len() - i,
        {
            proof {
                reveal_strlit(",");
                reveal_strlit("\n");
            }
            let entry = &self.queried[i];
            out.append(entry.0.as_str());
            out.append(",");
            out.append(i64_to_string(entry.1).as_str());
            if i + 1 < self.queried.len() {
                out.append("\n");
            }
            i = i + 1;
        }
        proof {
            assert(out@ =~= out@ + log_text(self.queried_log(), self.queried@.len() as int));
        }
        out
    }
}

/// The log's textual form from entry `i` on.
pub open spec fn log_text(log: Seq<(Seq<char>, i64)>, i: int) -> Seq<char>
    decreases log.len() - i,
{
    if i < 0 || i >= log.len() {
        Seq::empty()
    } else if i == log.len() - 1 {
        log[i].0 + ","@ + i64_dec_str(log[i].1)
    } else {
        log[i].0 + ","@ + i64_dec_str(log[i].1) + "\n"@ + log_text(log, i + 1)
    }
}

struct SiteMapEntry {
    loc: String,
    lastmod: String,
    priority: Option<String>,
}

impl SiteMapEntry {
    spec fn entry_view(&self) -> (Seq<char>, Seq<char>, Option<Seq<char>>) {
        (
            self.loc@,
            self.lastmod@,
            match self.priority {
                Some(ref p) => Some(p@),
                None => None,
            },
        )
    }

    fn build(&self) -> (r: String)
        ensures
            r@ == entry_xml(self.entry_view()),
    {
        proof {
            reveal_strlit("<url><loc>");
            reveal_strlit("</loc><lastmod>");
            reveal_strlit("</lastmod>");
            reveal_strlit("<priority>");
            reveal_strlit("</priority>");
            reveal_strlit("</url>");
        }
        let mut out = ("<url><loc>").to_owned();
        out.append(self.loc.as_str());
        out.append("</loc><lastmod>");
        out.append(self.lastmod.as_str());
        out.append("</lastmod>");
        match &self.priority {
            Some(p) => {
                out.append("<priority>");
                out.append(p.as_str());
                out.append("</priority>");
            },
            None => {
            },
        }
        out.append("</url>");
        proof {
            assert(out@ =~= entry_xml(self.entry_view()));
        }
        out
    }
}

/// One sitemap entry's XML.
pub open spec fn entry_xml(e: (Seq<char>, Seq<char>, Option<Seq<char>>)) -> Seq<char> {
    let base = "<url><loc>"@ + e.0 + "</loc><lastmod>"@ + e.1 + "</lastmod>"@;
    (match e.2 {
        Some(p) => base + "<priority>"@ + p + "</priority>"@,
        None => base,
    }) + "</url>"@
}

/// The entries' XML from `i` on, concatenated.
pub open spec fn entries_xml(es: Seq<(Seq<char>, Seq<char>, Option<Seq<char>>)>, i: int) -> Seq<
    char,
>
    decreases es.len() - i,
{
    if i < 0 || i >= es.len() {
        Seq::empty()
    } else {
        entry_xml(es[i]) + entries_xml(es, i + 1)
    }
}

/// The root URL with an `https://` scheme supplied when none is given and a
/// trailing slash ensured.
pub open spec fn normalized_root(r: Seq<char>) -> Seq<char> {
    let r1 = if crate::text::match_at(r, "http"@, 0) {
        r
    } else {
        "https://"@ + r
    };
    if r1.len() > 0 && r1[r1.len() - 1] == '/' {
        r1
    } else {
        r1 + "/"@
    }
}

/// Collects page locations and last-modified dates and renders the sitemap
/// XML.
pub struct SiteMapBuilder {
    root: String,
    entries: Vec<SiteMapEntry>,
    resolver: ModificationTimestampResolver,
    now_millis: i64,
}

impl SiteMapBuilder {
    pub closed spec fn root_text(&self) -> Seq<char> {
        self.root@
    }

    pub closed spec fn entries_view(&self) -> Seq<(Seq<char>, Seq<char>, Option<Seq<char>>)> {
        self.entries@.map_values(|e: SiteMapEntry| e.entry_view())
    }

    pub closed spec fn log_view(&self) -> Seq<(Seq<char>, i64)> {
        self.resolver.queried_log()
    }

    pub closed spec fn old_log_text(&self) -> Seq<char> {
        self.resolver.old_text()
    }

    pub closed spec fn clock(&self) -> i64 {
        self.now_millis
    }

    /// Start a sitemap under the root URL. The caller supplies the saved
    /// modification log's text and the present clock reading in milliseconds.
    pub fn new(root: String, old_modifications: String, now_millis: i64) -> (r: Self)
        ensures
            r.root_text() == normalized_root(root@),
            r.entries_view() == Seq::<(Seq<char>, Seq<char>, Option<Seq<char>>)>::empty(),
            r.log_view() == Seq::<(Seq<char>, i64)>::empty(),
            r.old_log_text() == old_modifications@,
            r.clock() == now_millis,
    {
        proof {
            reveal_strlit("https://");
            reveal_strlit("/");
        }
        let ghost root0 = root@;
        let mut root = root;
        if !crate::text::has_match_at(root.as_str(), "http", 0) {
            let mut prefixed = ("https://").to_owned();
            prefixed.append(root.as_str());
            root = prefixed;
        }
        proof {
            assert(root@ == if crate::text::match_at(root0, "http"@, 0) {
                root0
            } else {
                "https://"@ + root0
            });
        }
        let ghost r1 = root@;
        let n = root.as_str().unicode_len();
        if !(n > 0 && root.as_str().get_char(n - 1) as u32 == 47) {
            proof {
                if n > 0 {
                    assert(root@[n - 1] as u32 == 47 <==> root@[n - 1] == '/');
                }
            }
            root.append("/");
            proof {
                assert(root@ == r1 + "/"@);
            }
        } else {
            proof {
                assert(root@[n - 1] as u32 == 47 ==> root@[n - 1] == '/');
            }
        }
        proof {
            assert(root@ == normalized_root(root0));
        }
        let r = SiteMapBuilder {
            root,
            entries: Vec::new(),
            resolver: ModificationTimestampResolver::new(old_modifications),
            now_millis,
        };
        proof {
            assert(r.entries_view() =~= Seq::<
                (Seq<char>, Seq<char>, Option<Seq<char>>),
            >::empty());
            assert(r.root_text() == normalized_root(root0));
        }
        r
    }

    /// Add the page at a path relative to the URL (e.g. `index.html`) to the
    /// sitemap.
    ///
    /// The last modified date is determined from the content checksum via the
    /// modification log, falling back to the present clock reading.
    pub fn add(&mut self, path: String, content: &Vec<u8>)
        ensures
            ({
                let hash = dec_str(fnv64_spec(content@) as int);
                let ts = match mod_lookup(old(self).old_log_text(), hash, 0) {
                    Some(t) => t,
                    None => old(self).clock(),
                };
                let lastmod = if crate::trusted::millis_in_range(ts) {
                    crate::trusted::date_of_millis(ts)
                } else {
                    Seq::<char>::empty()
                };
                &&& final(self).root_text() == old(self).root_text()
                &&& final(self).old_log_text() == old(self).old_log_text()
                &&& final(self).clock() == old(self).clock()
                &&& final(self).log_view() == old(self).log_view().push((hash, ts))
                &&& final(self).entries_view() == old(self).entries_view().push(
                    (old(self).root_text() + stripped_path(path@), lastmod, None),
                )
            }),
    {
        proof {
            reveal_strlit("/");
            reveal_strlit("index.html");
        }
        let s = path.as_str();
        let n = s.unicode_len();
        let start: usize = if n > 0 && s.get_char(0) as u32 == 47 {
            1
        } else {
            0
        };
        proof {
            if n > 0 {
                assert(s@[0] as u32 == 47 <==> s@[0] == '/');
            }
        }
        let end: usize = if n - start >= 10 && crate::text::has_match_at(s, "index.html", n - 10)
        {
            n - 10
        } else {
            n
        };
        proof {
            assert(s@.subrange(start as int, end as int) =~= stripped_path(path@));
        }
        let mut loc = self.root.clone();
        loc.append(s.substring_char(start, end));
        let lastmod = self.resolver.get_change_time(content, self.now_millis);
        let ghost pre = self.entries@.map_values(|e: SiteMapEntry| e.entry_view());
        self.entries.push(SiteMapEntry { loc, lastmod, priority: None });
        proof {
            assert(self.entries_view() =~= pre.push(self.entries@.last().entry_view()));
        }
    }

    /// The modification log to save for the next run.
    pub fn modifications_text(&self) -> (r: String)
        ensures
            r@ == log_text(self.log_view(), 0),
    {
        self.resolver.save_text()
    }

    /// The sitemap XML.
    pub fn build(&self) -> (r: String)
        ensures
            r@ == "<urlset>"@ + entries_xml(self.entries_view(), 0) + "</urlset>"@,
    {
        proof {
            reveal_strlit("<urlset>");
            reveal_strlit("</urlset>");
        }
        let mut out = ("<urlset>").to_owned();
        let mut i: usize = 0;
        proof {
            assert(out@ + entries_xml(self.entries_view(), 0) =~= "<urlset>"@ + entries_xml(
                self.entries_view(),
                0,
            ));
        }
        while i < self.entries.len()
            invariant
                i <= self.entries@.len(),
                "<urlset>"@ + entries_xml(self.entries_view(), 0) == out@ + entries_xml(
                    self.entries_view(),
                    i as int,
                ),
            decreases self.entries@.len() - i,
        {
            let piece = self.entries[i].build();
            out.append(piece.as_str());
            proof {
                assert(self.entries_view()[i as int] == self.entries@[i as int].entry_view());
            }
            i = i + 1;
        }
        proof {
            assert(out@ =~= out@ + entries_xml(self.entries_view(), self.entries@.len() as int));
        }
        out.append("</urlset>");
        out
    }
}

/// The path with one leading slash and a trailing `index.html` removed.
pub open spec fn stripped_path(p: Seq<char>) -> Seq<char> {
    let start: int = if p.len() > 0 && p[0] == '/' {
        1
    } else {
        0
    };
    let end: int = if p.len() - start >= 10 && crate::text::match_at(p, "index.html"@, p.len() - 10)
    {
        p.len() - 10
    } else {
        p.len() as int
    };
    p.subrange(start, end)
}

} // verus!
