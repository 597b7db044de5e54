//! The page tree: a raw tree of named files and directories as loaded from
//! storage, and its parsed form in which `.yml` files have become build
//! procedures.

use vstd::prelude::*;
use crate::procedure::{BuildProcedure, BuildProcedureLoadError};

verus! {

/// A raw tree entry: a file's content or a directory's children, plus the
/// entry's name and optional creation timestamp.
#[derive(Debug)]
pub struct FsTree {
    pub entry_name: String,
    /// A file's content, or a directory's children.
    pub child: FsChild,
    pub created: Option<u64>,
}

#[derive(Debug)]
pub enum FsChild {
    File(String),
    Dir(Vec<FsTree>),
}

/// Why loading a raw tree from storage failed.
#[derive(Debug)]
pub enum FsTreeLoadError {
    /// The path, and the reading error's description.
    CantReadPath(String, String),
    UnparsableFilename(String),
    IsSymlink(String),
}

/// A parsed tree entry.
#[derive(Debug)]
pub struct ParsedFsTree {
    pub name: String,
    pub content: ParsedFsEntry,
    pub created: Option<u64>,
}

#[derive(Debug)]
pub enum ParsedFsEntry {
    Directory(Vec<ParsedFsTree>),
    TextFile(String),
    BuildProcedure(BuildProcedure),
}

/// Why parsing a raw tree failed.
#[derive(Debug)]
pub enum ParsedFsTreeParseError {
    InvalidBuildProcedure(String, BuildProcedureLoadError),
}

/// The position of the name's last dot, or a negative value when it has
/// none.
pub open spec fn last_dot(s: Seq<char>) -> int
    decreases s.len(),
{
    if s.len() == 0 {
        -1
    } else if s.last() == '.' {
        s.len() - 1
    } else {
        last_dot(s.drop_last())
    }
}

/// The name carries the extension `ext`: the part after its last dot, which
/// must not be its first character.
pub open spec fn has_ext(s: Seq<char>, ext: Seq<char>) -> bool {
    last_dot(s) >= 1 && s.subrange(last_dot(s) + 1, s.len() as int) == ext
}

proof fn lemma_last_dot(s: Seq<char>)
    ensures
        -1 <= last_dot(s) < s.len(),
        last_dot(s) >= 0 ==> s[last_dot(s)] == '.',
        forall|k: int| last_dot(s) < k < s.len() ==> s[k] != '.',
    decreases s.len(),
{
    if s.len() > 0 && s.last() != '.' {
        lemma_last_dot(s.drop_last());
        assert(forall|k: int| 0 <= k < s.len() - 1 ==> s[k] == s.drop_last()[k]);
    }
}

/// Whether the name carries the extension.
pub fn name_has_ext(name: &str, ext: &str) -> (r: bool)
    ensures
        r == has_ext(name@, ext@),
{
    let n = name.unicode_len();
    let mut i = n;
    proof {
        assert(name@.take(n as int) =~= name@);
    }
    while i > 0 && name.get_char(i - 1) as u32 != 46
        invariant
            n == name@.len(),
            i <= n,
            last_dot(name@) == last_dot(name@.take(i as int)),
        decreases i,
    {
        proof {
            assert(name@.take(i as int).last() == name@[i - 1]);
            assert(name@[i - 1] as u32 != 46 ==> name@[i - 1] != '.');
            assert(name@.take(i as int).drop_last() =~= name@.take(i - 1));
        }
        i = i - 1;
    }
    proof {
        lemma_last_dot(name@);
        if i > 0 {
            assert(name@.take(i as int).last() == name@[i - 1]);
            assert(name@[i - 1] as u32 == 46 ==> name@[i - 1] == '.');
            assert(last_dot(name@.take(i as int)) == i - 1);
        } else {
            assert(name@.take(0) =~= Seq::<char>::empty());
        }
    }
    if i >= 2 {
        crate::text::str_eq(name.substring_char(i, n), ext)
    } else {
        false
    }
}

/// The position of the text's last newline, or a negative value.
pub open spec fn last_newline(s: Seq<char>) -> int
    decreases s.len(),
{
    if s.len() == 0 {
        -1
    } else if s.last() == '\n' {
        s.len() - 1
    } else {
        last_newline(s.drop_last())
    }
}

/// The output's last line.
pub open spec fn last_line(s: Seq<char>) -> Seq<char> {
    s.subrange(last_newline(s) + 1, s.len() as int)
}

/// The creation timestamp a version-control log's output carries: the last
/// line parsed as decimal seconds, or nothing when it is no such number.
pub fn timestamp_from_log(out: &str) -> (r: Option<u64>)
    ensures
        r == crate::text::parse_u64_spec(last_line(out@)),
{
    let n = out.unicode_len();
    let mut i = n;
    proof {
        assert(out@.take(n as int) =~= out@);
    }
    while i > 0 && out.get_char(i - 1) as u32 != 10
        invariant
            n == out@.len(),
            i <= n,
            last_newline(out@) == last_newline(out@.take(i as int)),
        decreases i,
    {
        proof {
            assert(out@.take(i as int).last() == out@[i - 1]);
            assert(out@[i - 1] as u32 != 10 ==> out@[i - 1] != '\n');
            assert(out@.take(i as int).drop_last() =~= out@.take(i - 1));
        }
        i = i - 1;
    }
    proof {
        if i > 0 {
            assert(out@.take(i as int).last() == out@[i - 1]);
            assert(out@[i - 1] as u32 == 10 ==> out@[i - 1] == '\n');
            assert(last_newline(out@.take(i as int)) == i - 1);
        } else {
            assert(out@.take(0) =~= Seq::<char>::empty());
        }
    }
    let line = out.substring_char(i, n);
    proof {
        assert(line@ =~= last_line(out@));
    }
    crate::text::parse_u64_str(line)
}

/// The first position at or after `i` holding a slash, or the length.
pub open spec fn slash_pos(s: Seq<char>, i: int) -> int
    decreases s.len() - i,
{
    if i < 0 || i >= s.len() {
        s.len() as int
    } else if s[i] == '/' {
        i
    } else {
        slash_pos(s, i + 1)
    }
}

pub proof fn lemma_slash_pos(s: Seq<char>, i: int)
    requires
        0 <= i <= s.len(),
    ensures
        i <= slash_pos(s, i) <= s.len(),
        slash_pos(s, i) < s.len() ==> s[slash_pos(s, i)] == '/',
        forall|k: int| i <= k < slash_pos(s, i) ==> s[k] != '/',
    decreases s.len() - i,
{
    if i < s.len() && s[i] != '/' {
        lemma_slash_pos(s, i + 1);
    }
}

fn find_slash(s: &str, i: usize) -> (r: usize)
    requires
        i <= s@.len(),
    ensures
        r as int == slash_pos(s@, i as int),
{
    let n = s.unicode_len();
    let mut k = i;
    while k < n && s.get_char(k) as u32 != 47
        invariant
            n == s@.len(),
            i <= k <= n,
            slash_pos(s@, i as int) == slash_pos(s@, k as int),
        decreases n - k,
    {
        proof {
            assert(s@[k as int] as u32 != 47 ==> s@[k as int] != '/');
        }
        k = k + 1;
    }
    proof {
        if k < n {
            assert(s@[k as int] as u32 == 47 ==> s@[k as int] == '/');
        }
    }
    k
}

/// The entry the slash-separated path denotes: the whole tree when the path
/// equals its name, else the first matching child of a directory whose name
/// is the path's first segment.
pub open spec fn tree_get(t: ParsedFsTree, path: Seq<char>) -> Option<ParsedFsEntry>
    decreases t, 1int,
{
    if t.name@ == path {
        Some(t.content)
    } else {
        match t.content {
            ParsedFsEntry::Directory(children) => {
                let k = slash_pos(path, 0);
                if k < path.len() && path.subrange(0, k) == t.name@ {
                    get_in_children(children@, 0, path.subrange(k + 1, path.len() as int))
                } else {
                    None
                }
            },
            _ => None,
        }
    }
}

/// The first child (in order) whose lookup succeeds.
pub open spec fn get_in_children(cs: Seq<ParsedFsTree>, j: int, rest: Seq<char>) -> Option<
    ParsedFsEntry,
>
    decreases cs, 0int, cs.len() - j,
{
    if j < 0 || j >= cs.len() {
        None
    } else {
        match tree_get(cs[j], rest) {
            Some(e) => Some(e),
            None => get_in_children(cs, j + 1, rest),
        }
    }
}

/// The parse result matches the raw tree: names and timestamps carried over,
/// `.yml` files parsed into procedures, other files kept as text, and
/// directories parsed child by child.
pub open spec fn parse_rel(t: FsTree, r: ParsedFsTree) -> bool
    decreases t, 1int,
{
    &&& r.name@ == t.entry_name@
    &&& r.created == t.created
    &&& match t.child {
        FsChild::File(content) => {
            if has_ext(t.entry_name@, "yml"@) {
                r.content matches ParsedFsEntry::BuildProcedure(p)
                    && crate::yaml::yaml_doc_of(content@) matches Some(y)
                    && crate::yaml::proc_of_yaml(y) == Ok::<_, crate::yaml::LoadKind>(p@)
            } else {
                r.content matches ParsedFsEntry::TextFile(c) && c@ == content@
            }
        },
        FsChild::Dir(children) => r.content matches ParsedFsEntry::Directory(rc) && rc@.len()
            == children@.len() && parse_rel_children(children@, rc@, 0),
    }
}

pub open spec fn parse_rel_children(cs: Seq<FsTree>, rs: Seq<ParsedFsTree>, j: int) -> bool
    decreases cs, 0int, cs.len() - j,
{
    if j < 0 || j >= cs.len() {
        true
    } else {
        (j < rs.len() && parse_rel(cs[j], rs[j])) && parse_rel_children(cs, rs, j + 1)
    }
}

/// The first parse failure in traversal order: the failing entry's name and
/// the load fault.
pub open spec fn parse_err(t: FsTree) -> Option<(Seq<char>, crate::yaml::LoadKind)>
    decreases t, 1int,
{
    match t.child {
        FsChild::File(content) => {
            if has_ext(t.entry_name@, "yml"@) {
                match crate::yaml::yaml_doc_of(content@) {
                    None => Some((t.entry_name@, crate::yaml::LoadKind::Format)),
                    Some(y) => match crate::yaml::proc_of_yaml(y) {
                        Err(k) => Some((t.entry_name@, k)),
                        Ok(_) => None,
                    },
                }
            } else {
                None
            }
        },
        FsChild::Dir(children) => parse_err_children(children@, 0),
    }
}

pub open spec fn parse_err_children(cs: Seq<FsTree>, j: int) -> Option<
    (Seq<char>, crate::yaml::LoadKind),
>
    decreases cs, 0int, cs.len() - j,
{
    if j < 0 || j >= cs.len() {
        None
    } else {
        match parse_err(cs[j]) {
            Some(e) => Some(e),
            None => parse_err_children(cs, j + 1),
        }
    }
}

impl FsTree {
    /// Parse the raw tree: `.yml` files become build procedures, other files
    /// stay text, directories are parsed child by child.
    pub fn parse(&self) -> (r: Result<ParsedFsTree, ParsedFsTreeParseError>)
        ensures
            match r {
                Ok(p) => parse_err(*self) is None && parse_rel(*self, p),
                Err(e) => e matches ParsedFsTreeParseError::InvalidBuildProcedure(path, le)
                    && parse_err(*self) matches Some(pe) && pe.0 == path@ && ((le
                    is FormatError <==> pe.1 == crate::yaml::LoadKind::Format) && (le
                    is UnexpectNoneVariableValue <==> pe.1
                    == crate::yaml::LoadKind::UnexpectedNone)),
            },
        decreases *self,
    {
        match &self.child {
            FsChild::File(content) => {
                if name_has_ext(self.entry_name.as_str(), "yml") {
                    match crate::procedure::BuildProcedure::new(content.as_str()) {
                        Ok(procedure) => Ok(
                            ParsedFsTree {
                                name: self.entry_name.clone(),
                                content: ParsedFsEntry::BuildProcedure(procedure),
                                created: self.created,
                            },
                        ),
                        Err(err) => Err(
                            ParsedFsTreeParseError::InvalidBuildProcedure(
                                self.entry_name.clone(),
                                err,
                            ),
                        ),
                    }
                } else {
                    Ok(
                        ParsedFsTree {
                            name: self.entry_name.clone(),
                            content: ParsedFsEntry::TextFile(content.clone()),
                            created: self.created,
                        },
                    )
                }
            },
            FsChild::Dir(children) => {
                let mut parsed: Vec<ParsedFsTree> = Vec::new();
                let mut j: usize = 0;
                while j < children.len()
                    invariant
                        self.child is Dir,
                        children@ == self.child->Dir_0@,
                        j <= children@.len(),
                        parsed@.len() == j,
                        forall|k: int|
                            0 <= k < j ==> #[trigger] parse_rel(children@[k], parsed@[k]),
                        forall|k: int| 0 <= k < j ==> #[trigger] parse_err(children@[k]) is None,
                    decreases children@.len() - j,
                {
                    proof {
                        assert(decreases_to!(*self => self.child));
                        assert(decreases_to!(self.child => self.child->Dir_0));
                        assert(decreases_to!(self.child->Dir_0 => self.child->Dir_0@));
                        assert(children@ == self.child->Dir_0@);
                        assert(decreases_to!(children@ => children@[j as int]));
                    }
                    let ghost parsed_old = parsed@;
                    match children[j].parse() {
                        Ok(p) => {
                            parsed.push(p);
                            proof {
                                assert(forall|k: int|
                                    0 <= k < j ==> parsed@[k] == parsed_old[k]);
                            }
                        },
                        Err(e) => {
                            proof {
                                lemma_parse_err_children_found(children@, j as int);
                            }
                            return Err(e);
                        },
                    }
                    j = j + 1;
                }
                proof {
                    lemma_parse_children_done(children@, parsed@, 0);
                }
                Ok(
                    ParsedFsTree {
                        name: self.entry_name.clone(),
                        content: ParsedFsEntry::Directory(parsed),
                        created: self.created,
                    },
                )
            },
        }
    }
}

/// When every child up to `j` parses cleanly and the child at `j` fails, the
/// directory's first failure is the child's.
proof fn lemma_parse_err_children_found(cs: Seq<FsTree>, j: int)
    requires
        0 <= j < cs.len(),
        forall|k: int| 0 <= k < j ==> #[trigger] parse_err(cs[k]) is None,
        parse_err(cs[j]) is Some,
    ensures
        parse_err_children(cs, 0) == parse_err(cs[j]),
{
    lemma_parse_err_children_step(cs, 0, j);
}

proof fn lemma_parse_err_children_step(cs: Seq<FsTree>, a: int, j: int)
    requires
        0 <= a <= j < cs.len(),
        forall|k: int| a <= k < j ==> #[trigger] parse_err(cs[k]) is None,
        parse_err(cs[j]) is Some,
    ensures
        parse_err_children(cs, a) == parse_err(cs[j]),
    decreases j - a,
{
    if a < j {
        lemma_parse_err_children_step(cs, a + 1, j);
        assert(parse_err(cs[a]) is None);
        assert(parse_err_children(cs, a) == parse_err_children(cs, a + 1));
    } else {
        assert(parse_err_children(cs, a) == match parse_err(cs[j]) {
            Some(e) => Some(e),
            None => parse_err_children(cs, j + 1),
        });
    }
}

/// When every child parses cleanly and matches, so does the directory.
proof fn lemma_parse_children_done(cs: Seq<FsTree>, rs: Seq<ParsedFsTree>, j: int)
    requires
        0 <= j,
        rs.len() == cs.len(),
        forall|k: int| 0 <= k < cs.len() ==> #[trigger] parse_rel(cs[k], rs[k]),
        forall|k: int| 0 <= k < cs.len() ==> #[trigger] parse_err(cs[k]) is None,
    ensures
        parse_rel_children(cs, rs, j),
        parse_err_children(cs, j) is None,
    decreases cs.len() - j,
{
    if j < cs.len() {
        lemma_parse_children_done(cs, rs, j + 1);
        assert(parse_rel(cs[j], rs[j]));
        assert(parse_rel_children(cs, rs, j) == ((j < rs.len() && parse_rel(cs[j], rs[j]))
            && parse_rel_children(cs, rs, j + 1)));
        assert(parse_err_children(cs, j) == match parse_err(cs[j]) {
            Some(e) => Some(e),
            None => parse_err_children(cs, j + 1),
        });
    }
}

/// The entries a filter of the tree yields: files (and procedures) whose name
/// carries the extension, paths relative to the tree's parent.
pub open spec fn filter_spec(t: ParsedFsTree, ext: Seq<char>) -> Seq<(Seq<char>, ParsedFsEntry)>
    decreases t, 1int,
{
    match t.content {
        ParsedFsEntry::Directory(children) => filter_children(children@, 0, ext).map_values(
            |pr: (Seq<char>, ParsedFsEntry)| (t.name@ + "/"@ + pr.0, pr.1),
        ),
        _ => if has_ext(t.name@, ext) {
            seq![(t.name@, t.content)]
        } else {
            Seq::empty()
        },
    }
}

/// The filter entries of the children from `j` on, concatenated in order.
pub open spec fn filter_children(cs: Seq<ParsedFsTree>, j: int, ext: Seq<char>) -> Seq<
    (Seq<char>, ParsedFsEntry),
>
    decreases cs, 0int, cs.len() - j,
{
    if j < 0 || j >= cs.len() {
        Seq::empty()
    } else {
        filter_spec(cs[j], ext) + filter_children(cs, j + 1, ext)
    }
}

impl ParsedFsTree {
    /// Gather all files with a matching `file_extension` and return their
    /// paths and content.
    ///
    /// Paths are relative to this tree's parent directory.
    pub fn filter<'a>(&'a self, file_extension: &str) -> (r: Vec<(String, &'a ParsedFsEntry)>)
        ensures
            r@.map_values(|p: (String, &'a ParsedFsEntry)| (p.0@, *p.1)) == filter_spec(
                *self,
                file_extension@,
            ),
        decreases *self,
    {
        let ghost ext = file_extension@;
        match &self.content {
            ParsedFsEntry::Directory(children) => {
                let ghost cs = children@;
                let mut r: Vec<(String, &'a ParsedFsEntry)> = Vec::new();
                let mut j: usize = 0;
                proof {
                    assert(r@.map_values(|p: (String, &'a ParsedFsEntry)| (p.0@, *p.1)) =~= Seq::<
                        (Seq<char>, ParsedFsEntry),
                    >::empty());
                }
                while j < children.len()
                    invariant
                        ext == file_extension@,
                        self.content is Directory,
                        children@ == self.content->Directory_0@,
                        cs == children@,
                        j <= cs.len(),
                        filter_spec(*self, ext) == r@.map_values(
                            |p: (String, &'a ParsedFsEntry)| (p.0@, *p.1),
                        ) + filter_children(cs, j as int, ext).map_values(
                            |pr: (Seq<char>, ParsedFsEntry)| (self.name@ + "/"@ + pr.0, pr.1),
                        ),
                    decreases cs.len() - j,
                {
                    proof {
                        assert(decreases_to!(*self => self.content));
                        assert(decreases_to!(self.content => self.content->Directory_0));
                        assert(decreases_to!(self.content->Directory_0 => self.content->Directory_0@));
                        assert(decreases_to!(children@ => children@[j as int]));
                    }
                    let sub = children[j].filter(file_extension);
                    let ghost r_pre = r@;
                    let mut q: usize = 0;
                    while q < sub.len()
                        invariant
                            ext == file_extension@,
                            q <= sub@.len(),
                            sub@.map_values(|p: (String, &'a ParsedFsEntry)| (p.0@, *p.1))
                                == filter_spec(cs[j as int], ext),
                            0 <= j < cs.len(),
                            r@.len() == r_pre.len() + q,
                            forall|k: int| 0 <= k < r_pre.len() ==> r@[k] == r_pre[k],
                            forall|k: int|
                                0 <= k < q ==> (#[trigger] r@[r_pre.len() + k]).0@ == self.name@
                                    + "/"@ + filter_spec(cs[j as int], ext)[k].0 && *r@[r_pre.len()
                                    + k].1 == filter_spec(cs[j as int], ext)[k].1,
                        decreases sub@.len() - q,
                    {
                        let mut full = self.name.clone();
                        full.append("/");
                        full.append(sub[q].0.as_str());
                        r.push((full, sub[q].1));
                        proof {
                            assert(filter_spec(cs[j as int], ext)[q as int] == sub@.map_values(
                                |p: (String, &'a ParsedFsEntry)| (p.0@, *p.1),
                            )[q as int]);
                        }
                        q = q + 1;
                    }
                    proof {
                        let conv = |p: (String, &'a ParsedFsEntry)| (p.0@, *p.1);
                        let pre_fn = |pr: (Seq<char>, ParsedFsEntry)|
                            (self.name@ + "/"@ + pr.0, pr.1);
                        let fs = filter_spec(cs[j as int], ext);
                        assert(r@.len() == r_pre.len() + fs.len());
                        assert forall|k: int| 0 <= k < r@.len() implies conv(r@[k]) == (
                        r_pre.map_values(conv) + fs.map_values(pre_fn))[k] by {
                            if k < r_pre.len() {
                                assert(r@[k] == r_pre[k]);
                            } else {
                                let k2 = k - r_pre.len();
                                assert(r@[r_pre.len() + k2].0@ == self.name@ + "/"@ + fs[k2].0);
                                assert(*r@[r_pre.len() + k2].1 == fs[k2].1);
                                assert(fs.map_values(pre_fn)[k2] == pre_fn(fs[k2]));
                            }
                        }
                        assert(r@.map_values(conv) =~= r_pre.map_values(conv) + fs.map_values(
                            pre_fn,
                        ));
                        assert(filter_children(cs, j as int, ext).map_values(pre_fn)
                            =~= fs.map_values(pre_fn) + filter_children(cs, j + 1, ext).map_values(
                            pre_fn,
                        ));
                    }
                    j = j + 1;
                }
                proof {
                    assert(filter_children(cs, cs.len() as int, ext).map_values(
                        |pr: (Seq<char>, ParsedFsEntry)| (self.name@ + "/"@ + pr.0, pr.1),
                    ) =~= Seq::<(Seq<char>, ParsedFsEntry)>::empty());
                    assert(r@.map_values(|p: (String, &'a ParsedFsEntry)| (p.0@, *p.1))
                        =~= filter_spec(*self, ext));
                }
                r
            },
            _ => {
                let mut r: Vec<(String, &'a ParsedFsEntry)> = Vec::new();
                if name_has_ext(self.name.as_str(), file_extension) {
                    r.push((self.name.clone(), &self.content));
                }
                proof {
                    assert(r@.map_values(|p: (String, &'a ParsedFsEntry)| (p.0@, *p.1))
                        =~= filter_spec(*self, ext));
                }
                r
            },
        }
    }

    /// Look an entry up by slash-separated path.
    pub fn get(&self, path: &String) -> (r: Option<&ParsedFsEntry>)
        ensures
            match r {
                Some(e) => tree_get(*self, path@) == Some(*e),
                None => tree_get(*self, path@) is None,
            },
    {
        self.get_str(path.as_str())
    }

    fn get_str(&self, path: &str) -> (r: Option<&ParsedFsEntry>)
        ensures
            match r {
                Some(e) => tree_get(*self, path@) == Some(*e),
                None => tree_get(*self, path@) is None,
            },
        decreases *self,
    {
        if crate::text::str_eq(self.name.as_str(), path) {
            return Some(&self.content);
        }
        match &self.content {
            ParsedFsEntry::Directory(children) => {
                let k = find_slash(path, 0);
                let n = path.unicode_len();
                proof {
                    lemma_slash_pos(path@, 0);
                }
                if k < n && crate::text::str_eq(
                    path.substring_char(0, k),
                    self.name.as_str(),
                ) {
                    let rest = path.substring_char(k + 1, n);
                    let mut j: usize = 0;
                    while j < children.len()
                        invariant
                            self.content is Directory,
                            children@ == self.content->Directory_0@,
                            j <= children@.len(),
                            rest@ == path@.subrange(
                                slash_pos(path@, 0) + 1,
                                path@.len() as int,
                            ),
                            get_in_children(children@, 0, rest@) == get_in_children(
                                children@,
                                j as int,
                                rest@,
                            ),
                            tree_get(*self, path@) == get_in_children(children@, 0, rest@),
                        decreases children@.len() - j,
                    {
                        proof {
                            assert(decreases_to!(*self => self.content));
                            assert(decreases_to!(self.content => self.content->Directory_0));
                            assert(decreases_to!(self.content->Directory_0 => self.content->Directory_0@));
                            assert(children@ == self.content->Directory_0@);
                            assert(decreases_to!(children@ => children@[j as int]));
                        }
                        let got = children[j].get_str(rest);
                        if got.is_some() {
                            return got;
                        }
                        j = j + 1;
                    }
                    None
                } else {
                    None
                }
            },
            _ => None,
        }
    }
}

} // verus!
