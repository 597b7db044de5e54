//! The resolvable piece of data a build step binds to a variable name, and
//! the errors its generation can raise.

use vstd::prelude::*;
use crate::fs_tree::{ParsedFsEntry, ParsedFsTree};
use crate::ir::IR;
use crate::model;
use crate::procedure::Step;

verus! {

/// One resolvable piece of step data.
#[derive(Debug, PartialEq)]
pub enum Value {
    Text(String),
    Int(u64),
    UnixTimestamp { value: u64 },
    Md { path: String },
    TextFile { path: String },
    Index {
        /// Directory under the page tree whose children are indexed.
        path: String,
        /// Name of a *component* rendered once per child.
        item_template: String,
    },
}

/// The mathematical shape of a `Value`.
pub enum ValueV {
    Text(Seq<char>),
    Int(u64),
    UnixTimestamp(u64),
    Md(Seq<char>),
    TextFile(Seq<char>),
    Index(Seq<char>, Seq<char>),
}

impl View for Value {
    type V = ValueV;

    open spec fn view(&self) -> ValueV {
        match self {
            Value::Text(t) => ValueV::Text(t@),
            Value::Int(n) => ValueV::Int(*n),
            Value::UnixTimestamp { value } => ValueV::UnixTimestamp(*value),
            Value::Md { path } => ValueV::Md(path@),
            Value::TextFile { path } => ValueV::TextFile(path@),
            Value::Index { path, item_template } => ValueV::Index(path@, item_template@),
        }
    }
}

impl Clone for Value {
    fn clone(&self) -> (res: Self)
        ensures
            res@ == self@,
    {
        match self {
            Value::Text(t) => Value::Text(t.clone()),
            Value::Int(n) => Value::Int(*n),
            Value::UnixTimestamp { value } => Value::UnixTimestamp { value: *value },
            Value::Md { path } => Value::Md { path: path.clone() },
            Value::TextFile { path } => Value::TextFile { path: path.clone() },
            Value::Index { path, item_template } => Value::Index {
                path: path.clone(),
                item_template: item_template.clone(),
            },
        }
    }
}

proof fn lemma_insert_sorted_at(cs: Seq<ParsedFsTree>, l: Seq<int>, x: int, p: int)
    requires
        0 <= p <= l.len(),
        forall|k: int| 0 <= k < p ==> !model::order_lt(cs, x, #[trigger] l[k]),
        p < l.len() ==> model::order_lt(cs, x, l[p]),
    ensures
        model::insert_sorted(cs, l, x) == l.take(p) + seq![x] + l.skip(p),
    decreases l.len(),
{
    if l.len() == 0 {
        assert(model::insert_sorted(cs, l, x) =~= l.take(0) + seq![x] + l.skip(0));
    } else if p == 0 {
        assert(model::insert_sorted(cs, l, x) =~= l.take(0) + seq![x] + l.skip(0));
    } else {
        assert(!model::order_lt(cs, x, l[0]));
        let tail = l.drop_first();
        assert(forall|k: int| 0 <= k < p - 1 ==> !model::order_lt(cs, x, #[trigger] tail[k]))
            by {
            assert(forall|k: int| 0 <= k < p - 1 ==> tail[k] == l[k + 1]);
        }
        lemma_insert_sorted_at(cs, tail, x, p - 1);
        assert(model::insert_sorted(cs, l, x) =~= l.take(p) + seq![x] + l.skip(p));
    }
}

/// Whether child `x` sorts before child `o`: newer first, earlier sibling
/// first among equal timestamps.
fn comes_before(children: &Vec<ParsedFsTree>, x: usize, o: usize) -> (r: bool)
    requires
        x < children@.len(),
        o < children@.len(),
    ensures
        r == model::order_lt(children@, x as int, o as int),
{
    let xkey = match children[x].created {
        Some(c) => c,
        None => 0,
    };
    let okey = match children[o].created {
        Some(c) => c,
        None => 0,
    };
    xkey > okey || (xkey == okey && x < o)
}

/// The indices of the children ordered newest first, earlier siblings first
/// among equal timestamps.
fn sort_indices(children: &Vec<ParsedFsTree>) -> (r: Vec<usize>)
    ensures
        r@.map_values(|u: usize| u as int) == model::sorted_order(children@),
        forall|k: int| 0 <= k < r@.len() ==> (#[trigger] r@[k]) < children@.len(),
        r@.len() == children@.len(),
{
    let ghost cs = children@;
    let n = children.len();
    let mut order: Vec<usize> = Vec::new();
    let mut x: usize = 0;
    proof {
        assert(order@.map_values(|u: usize| u as int) =~= model::order_upto(cs, 0));
    }
    while x < n
        invariant
            cs == children@,
            n == cs.len(),
            x <= n,
            order@.len() == x,
            forall|k: int| 0 <= k < order@.len() ==> (#[trigger] order@[k]) < n,
            order@.map_values(|u: usize| u as int) == model::order_upto(cs, x as int),
        decreases n - x,
    {
        let mut p: usize = 0;
        while p < order.len() && !comes_before(children, x, order[p])
            invariant
                cs == children@,
                n == cs.len(),
                x < n,
                forall|k: int| 0 <= k < order@.len() ==> (#[trigger] order@[k]) < n,
                p <= order@.len(),
                forall|k: int|
                    0 <= k < p ==> !model::order_lt(cs, x as int, #[trigger] order@[k] as int),
            decreases order@.len() - p,
        {
            p = p + 1;
        }
        let ghost old_int = order@.map_values(|u: usize| u as int);
        order.insert(p, x);
        proof {
            lemma_insert_sorted_at(cs, old_int, x as int, p as int);
            assert(order@.map_values(|u: usize| u as int) =~= old_int.take(p as int) + seq![
                x as int,
            ] + old_int.skip(p as int));
        }
        x = x + 1;
    }
    order
}

impl Value {
    /// Turn the variable into a html compatible string.
    ///
    /// If the variable uses a path that isn't available resolving fails.
    pub fn generate(&self, data: &IR) -> (r: Result<String, ValueGenerationError>)
        ensures
            ({
                let spec_r = model::gen_text(self@, data@, model::MAX_INDEX_DEPTH as nat);
                match r {
                    Ok(t) => spec_r is Ok && spec_r->Ok_0 == t@,
                    Err(e) => spec_r is Err && spec_r->Err_0 == model::gen_err_trace(e),
                }
            }),
    {
        self.generate_fuel(data, model::MAX_INDEX_DEPTH)
    }

    pub(crate) fn generate_fuel(&self, data: &IR, fuel: u64) -> (r: Result<
        String,
        ValueGenerationError,
    >)
        ensures
            ({
                let spec_r = model::gen_text(self@, data@, fuel as nat);
                match r {
                    Ok(t) => spec_r is Ok && spec_r->Ok_0 == t@,
                    Err(e) => spec_r is Err && spec_r->Err_0 == model::gen_err_trace(e),
                }
            }),
        decreases fuel, 1int, 0int,
    {
        match self {
            Value::Text(txt) => Ok(txt.clone()),
            Value::Int(val) => Ok(crate::text::u64_to_string(*val)),
            Value::UnixTimestamp { value } => {
                match crate::trusted::render_timestamp(*value) {
                    None => Err(ValueGenerationError::UnixTimestampOutOfReach),
                    Some(rendered) => {
                        let (formal, pretty) = rendered;
                        let mut out = ("<time datetime=\"").to_owned();
                        out.append(formal.as_str());
                        out.append("\">");
                        out.append(pretty.as_str());
                        out.append("</time>");
                        proof {
                            assert(out@ =~= "<time datetime=\""@ + crate::trusted::rfc3339_of(
                                *value,
                            ) + "\">"@ + crate::trusted::date_of(*value) + "</time>"@);
                        }
                        Ok(out)
                    },
                }
            },
            Value::Md { path } => {
                let mut full = ("pages/").to_owned();
                full.append(path.as_str());
                match data.pages.get(&full) {
                    Some(entry) => match entry {
                        ParsedFsEntry::TextFile(md) => Ok(
                            crate::trusted::markdown_to_html(md.as_str()),
                        ),
                        _ => Err(ValueGenerationError::FileDoesntExist(path.clone())),
                    },
                    None => Err(ValueGenerationError::FileDoesntExist(path.clone())),
                }
            },
            Value::TextFile { path } => {
                let mut full = ("pages/").to_owned();
                full.append(path.as_str());
                match data.pages.get(&full) {
                    Some(entry) => match entry {
                        ParsedFsEntry::TextFile(txt) => Ok(txt.clone()),
                        _ => Err(ValueGenerationError::FileDoesntExist(path.clone())),
                    },
                    None => Err(ValueGenerationError::FileDoesntExist(path.clone())),
                }
            },
            Value::Index { path, item_template } => {
                if fuel == 0 {
                    return Err(ValueGenerationError::IndexCycleDetected);
                }
                let mut full = ("pages/").to_owned();
                full.append(path.as_str());
                match data.pages.get(&full) {
                    Some(entry) => match entry {
                        ParsedFsEntry::Directory(children) => Self::generate_index(
                            children,
                            item_template,
                            data,
                            fuel - 1,
                        ),
                        _ => Err(ValueGenerationError::NoDirAtIndexPath(path.clone())),
                    },
                    None => Err(ValueGenerationError::NoDirAtIndexPath(path.clone())),
                }
            },
        }
    }

    /// Render every procedure child of the directory, newest first, skipping
    /// `index.yml`, each against the named item component with a synthetic
    /// leading `link` binding, outputs separated by newlines.
    fn generate_index(
        children: &Vec<ParsedFsTree>,
        item_template: &String,
        data: &IR,
        fuel: u64,
    ) -> (r: Result<String, ValueGenerationError>)
        ensures
            ({
                let spec_r = model::index_items(
                    children@,
                    model::sorted_order(children@),
                    0,
                    item_template@,
                    data@,
                    fuel as nat,
                );
                match r {
                    Ok(t) => spec_r is Ok && spec_r->Ok_0 == t@,
                    Err(e) => spec_r is Err && spec_r->Err_0 == model::gen_err_trace(e),
                }
            }),
        decreases fuel, 8int, 0int,
    {
        let ghost cs = children@;
        let ghost ospec = model::sorted_order(cs);
        let ghost irv = data@;
        let ghost tplv = item_template@;
        let order = sort_indices(children);
        let mut html = String::new();
        let mut k: usize = 0;
        while k < order.len()
            invariant
                cs == children@,
                irv == data@,
                tplv == item_template@,
                ospec == model::sorted_order(cs),
                order@.map_values(|u: usize| u as int) == ospec,
                forall|j: int| 0 <= j < order@.len() ==> (#[trigger] order@[j]) < cs.len(),
                k <= order@.len(),
                model::index_items(cs, ospec, 0, tplv, irv, fuel as nat) == model::prepend_ok(
                    html@,
                    model::index_items(cs, ospec, k as int, tplv, irv, fuel as nat),
                ),
            decreases order@.len() - k,
        {
            let idx = order[k];
            proof {
                assert(ospec[k as int] == idx as int);
            }
            let child = &children[idx];
            match &child.content {
                ParsedFsEntry::BuildProcedure(proc) => {
                    proof {
                        reveal_strlit("index.yml");
                        reveal_strlit(".yml");
                        reveal_strlit(".html");
                        reveal_strlit("\n");
                    }
                    if !crate::text::str_eq(child.name.as_str(), "index.yml") {
                        if child.created.is_none() {
                            proof {
                                assert(model::index_items(cs, ospec, k as int, tplv, irv, fuel as nat)
                                    == Err::<Seq<char>, Seq<model::ErrStep>>(seq![
                                    model::ErrStep::TimestampMissing(child.name@),
                                ]));
                            }
                            return Err(
                                ValueGenerationError::IndexGitTimestampMissing(child.name.clone()),
                            );
                        }
                        let tpl = match data.components.get(item_template.as_str()) {
                            None => {
                                proof {
                                    crate::ir::lemma_doc_texts(data.components.as_map());
                                    assert(model::index_items(
                                        cs,
                                        ospec,
                                        k as int,
                                        tplv,
                                        irv,
                                        fuel as nat,
                                    ) == Err::<Seq<char>, Seq<model::ErrStep>>(seq![
                                        model::ErrStep::MissingComponent(tplv),
                                    ]));
                                }
                                return Err(
                                    ValueGenerationError::MissingComponent(item_template.clone()),
                                );
                            },
                            Some(t) => t,
                        };
                        proof {
                            crate::ir::lemma_doc_texts(data.components.as_map());
                        }
                        let out_name = crate::text::str_replace(
                            child.name.as_str(),
                            ".yml",
                            ".html",
                        );
                        let step = Step {
                            name: Some(("~~ index vars").to_owned()),
                            vars: vec![(("link").to_owned(), Value::Text(out_name))],
                        };
                        let ghost out_name_v = out_name@;
                        let ghost stepv = step@;
                        let mut proc2 = proc.clone();
                        let ghost cloned_steps = proc2.steps@;
                        proc2.steps.insert(0, step);
                        proof {
                            assert(stepv.vars =~= model::link_step(out_name_v).vars);
                            assert(stepv == model::link_step(out_name_v));
                            assert(proc2.steps@ =~= seq![step] + cloned_steps);
                            assert(proc2@.steps =~= seq![stepv] + proc@.steps);
                        }
                        let ghost p2v = crate::procedure::ProcV {
                            template: proc@.template,
                            steps: seq![model::link_step(out_name_v)] + proc@.steps,
                        };
                        proof {
                            assert(proc2@.steps == p2v.steps);
                            assert(proc2@ == p2v);
                        }
                        let item_html = match proc2.execute_with_template_override_fuel(
                            data,
                            tpl.clone(),
                            fuel,
                        ) {
                            Err(err) => {
                                proof {
                                    assert(model::index_items(
                                        cs,
                                        ospec,
                                        k as int,
                                        tplv,
                                        irv,
                                        fuel as nat,
                                    ) == Err::<Seq<char>, Seq<model::ErrStep>>(seq![
                                        model::ErrStep::CantBuildIndexItem(child.name@),
                                    ] + model::build_err_trace(err)));
                                }
                                return Err(
                                    ValueGenerationError::CantBuildIndexItem(
                                        child.name.clone(),
                                        err,
                                    ),
                                );
                            },
                            Ok(h) => h,
                        };
                        let ghost html_old = html@;
                        let ghost rest = model::index_items(
                            cs,
                            ospec,
                            k + 1,
                            tplv,
                            irv,
                            fuel as nat,
                        );
                        html.append("\n");
                        html.append(item_html.as_str());
                        proof {
                            assert("\n"@ =~= seq!['\n']);
                            assert(model::index_items(cs, ospec, k as int, tplv, irv, fuel as nat)
                                == model::prepend_ok(seq!['\n'] + item_html@, rest));
                            if rest is Ok {
                                assert(html_old + (seq!['\n'] + item_html@ + rest->Ok_0) =~= html@
                                    + rest->Ok_0);
                            }
                        }
                    }
                },
                _ => {
                },
            }
            k = k + 1;
        }
        proof {
            assert(html@ =~= html@ + Seq::<char>::empty());
        }
        Ok(html)
    }
}

/// Why turning one `Value` into text failed.
#[derive(Debug)]
pub enum ValueGenerationError {
    FileDoesntExist(String),
    UnixTimestampOutOfReach,
    NoDirAtIndexPath(String),
    CantBuildIndexItem(String, crate::procedure::BuildProcedureBuildError),
    MissingComponent(String),
    IndexGitTimestampMissing(String),
    /// The depth guard tripped: index items nested deeper than the engine
    /// follows, which a self-referencing index would otherwise turn into
    /// endless recursion.
    IndexCycleDetected,
}

} // verus!
