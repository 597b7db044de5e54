//! The mathematical model of the engine: a specification-level interpreter
//! for value generation, document resolution and procedure execution. The
//! executable functions promise to return exactly what this interpreter
//! says, and the laws of the engine are proved of it.
//!
//! Errors are modelled as the trace of layers they pass through, outermost
//! frame first; the trace of a concrete error value determines it.

use vstd::prelude::*;
use crate::fs_tree::{tree_get, ParsedFsEntry, ParsedFsTree};
use crate::procedure::{BuildProcedureBuildError, ProcV, StepV};
use crate::scan;
use crate::text;
use crate::value::{ValueGenerationError, ValueV};

verus! {

/// How many passes document resolution makes before it reports a cycle.
pub const MAX_RESOLVE_PASSES: u64 = 64;

/// How deeply index values may nest before generation reports a cycle.
pub const MAX_INDEX_DEPTH: u64 = 32;

/// One layer of an error: a leaf reason, or a wrapping frame followed by the
/// frames of the error it wraps.
pub enum ErrStep {
    TemplateNotFound(Seq<char>),
    CantResolveVars(Option<Seq<char>>, Seq<char>),
    /// Wraps a resolution error.
    TemplateResolve,
    MissingComponentInDoc(Seq<char>),
    /// Wraps a generation error for the named variable.
    VariableError(Seq<char>),
    DocumentError,
    ResolveCycle,
    FileDoesntExist(Seq<char>),
    TimestampOutOfRange,
    NoDirAtIndexPath(Seq<char>),
    /// Wraps a build error for the named child.
    CantBuildIndexItem(Seq<char>),
    MissingComponent(Seq<char>),
    TimestampMissing(Seq<char>),
    IndexCycle,
}

/// The trace of a generation error, outermost frame first.
pub open spec fn gen_err_trace(e: ValueGenerationError) -> Seq<ErrStep>
    decreases e,
{
    match e {
        ValueGenerationError::FileDoesntExist(p) => seq![ErrStep::FileDoesntExist(p@)],
        ValueGenerationError::UnixTimestampOutOfReach => seq![ErrStep::TimestampOutOfRange],
        ValueGenerationError::NoDirAtIndexPath(p) => seq![ErrStep::NoDirAtIndexPath(p@)],
        ValueGenerationError::CantBuildIndexItem(n, be) => seq![ErrStep::CantBuildIndexItem(n@)]
            + build_err_trace(be),
        ValueGenerationError::MissingComponent(n) => seq![ErrStep::MissingComponent(n@)],
        ValueGenerationError::IndexGitTimestampMissing(n) => seq![ErrStep::TimestampMissing(n@)],
        ValueGenerationError::IndexCycleDetected => seq![ErrStep::IndexCycle],
    }
}

/// The trace of a build error, outermost frame first.
pub open spec fn build_err_trace(e: BuildProcedureBuildError) -> Seq<ErrStep>
    decreases e,
{
    match e {
        BuildProcedureBuildError::TemplateNotFound(n) => seq![ErrStep::TemplateNotFound(n@)],
        BuildProcedureBuildError::CantResolveVars(step, var) => seq![
            ErrStep::CantResolveVars(
                match step {
                    Some(s) => Some(s@),
                    None => None,
                },
                var@,
            ),
        ],
        BuildProcedureBuildError::TemplateResolveError(re) => seq![ErrStep::TemplateResolve]
            + resolve_err_trace(re),
    }
}

/// The trace of a resolution error, outermost frame first.
pub open spec fn resolve_err_trace(e: crate::document::FwHTMLResolveError) -> Seq<ErrStep>
    decreases e,
{
    match e {
        crate::document::FwHTMLResolveError::MissingComponent(n) => seq![
            ErrStep::MissingComponentInDoc(n@),
        ],
        crate::document::FwHTMLResolveError::VariableError(n, ge) => seq![
            ErrStep::VariableError(n@),
        ] + gen_err_trace(*ge),
        crate::document::FwHTMLResolveError::GeneratesErrorInDocument(_) => seq![
            ErrStep::DocumentError,
        ],
        crate::document::FwHTMLResolveError::CycleDetected => seq![ErrStep::ResolveCycle],
    }
}

/// The read-only context resolution runs against: template and component
/// texts by name, and the parsed page tree.
pub struct IrV {
    pub templates: Map<Seq<char>, Seq<char>>,
    pub components: Map<Seq<char>, Seq<char>>,
    pub pages: ParsedFsTree,
}

/// The page-tree entry at `pages/{path}`.
pub open spec fn page_entry(ir: IrV, path: Seq<char>) -> Option<ParsedFsEntry> {
    tree_get(ir.pages, "pages/"@ + path)
}

/// Bindings accumulated left to right: a later binding of a name shadows an
/// earlier one.
pub open spec fn merge_step(
    binds: Map<Seq<char>, ValueV>,
    vars: Seq<(Seq<char>, ValueV)>,
) -> Map<Seq<char>, ValueV>
    decreases vars.len(),
{
    if vars.len() == 0 {
        binds
    } else {
        merge_step(binds, vars.drop_last()).insert(vars.last().0, vars.last().1)
    }
}

/// No substitution applies: no referenced component is among the known
/// components and no referenced variable is among the bindings.
pub open spec fn fixpoint(
    s: Seq<char>,
    comps_dom: Set<Seq<char>>,
    binds_dom: Set<Seq<char>>,
) -> bool {
    &&& forall|i: int| #[trigger]
        scan::comp_token_at(s, i) ==> !comps_dom.contains(scan::comp_name_at(s, i))
    &&& forall|i: int| #[trigger]
        scan::var_token_at(s, i) ==> !binds_dom.contains(scan::var_name_at(s, i))
}

/// The first referenced component, scanning from `i`, that the supplied
/// mapping does not know.
pub open spec fn first_missing_comp(s: Seq<char>, dom: Set<Seq<char>>, i: int) -> Option<
    Seq<char>,
>
    decreases s.len() - i,
{
    if i < 0 || i >= s.len() {
        None
    } else if scan::comp_token_at(s, i) && !dom.contains(scan::comp_name_at(s, i)) {
        Some(scan::comp_name_at(s, i))
    } else {
        first_missing_comp(s, dom, i + 1)
    }
}

/// The first referenced and bound variable, scanning from `i`, whose value
/// fails to generate, with its error trace.
pub open spec fn first_var_err(
    s: Seq<char>,
    binds: Map<Seq<char>, ValueV>,
    ir: IrV,
    fuel: nat,
    i: int,
) -> Option<(Seq<char>, Seq<ErrStep>)>
    decreases fuel, 2nat, s.len() - i,
{
    if i < 0 || i >= s.len() {
        None
    } else if scan::var_token_at(s, i) && binds.contains_key(scan::var_name_at(s, i)) && gen_text(
        binds[scan::var_name_at(s, i)],
        ir,
        fuel,
    ) is Err {
        Some(
            (
                scan::var_name_at(s, i),
                gen_text(binds[scan::var_name_at(s, i)], ir, fuel)->Err_0,
            ),
        )
    } else {
        first_var_err(s, binds, ir, fuel, i + 1)
    }
}

/// One substitution sweep from position `i`: known components replaced by
/// their markup, bound variables by their generated text, everything else
/// kept verbatim. Inserted text is not rescanned within the sweep.
pub open spec fn subst_from(
    s: Seq<char>,
    comps: Map<Seq<char>, Seq<char>>,
    binds: Map<Seq<char>, ValueV>,
    ir: IrV,
    fuel: nat,
    i: int,
) -> Seq<char>
    decreases fuel, 3nat, s.len() - i,
    via subst_from_dec
{
    if i < 0 || i >= s.len() {
        Seq::empty()
    } else if scan::comp_token_at(s, i) && comps.contains_key(scan::comp_name_at(s, i)) {
        comps[scan::comp_name_at(s, i)] + subst_from(
            s,
            comps,
            binds,
            ir,
            fuel,
            scan::comp_end_at(s, i),
        )
    } else if scan::var_token_at(s, i) && binds.contains_key(scan::var_name_at(s, i)) {
        (match gen_text(binds[scan::var_name_at(s, i)], ir, fuel) {
            Ok(v) => v,
            Err(_) => Seq::empty(),
        }) + subst_from(s, comps, binds, ir, fuel, scan::var_end_at(s, i))
    } else {
        seq![s[i]] + subst_from(s, comps, binds, ir, fuel, i + 1)
    }
}

#[via_fn]
proof fn subst_from_dec(
    s: Seq<char>,
    comps: Map<Seq<char>, Seq<char>>,
    binds: Map<Seq<char>, ValueV>,
    ir: IrV,
    fuel: nat,
    i: int,
) {
    if 0 <= i < s.len() {
        if scan::comp_token_at(s, i) {
            scan::lemma_name_end(s, i + 14);
        }
        if scan::var_token_at(s, i) {
            scan::lemma_name_end(s, i + 3);
        }
    }
}

pub proof fn lemma_fmc_no_comp_tokens(s: Seq<char>, dom: Set<Seq<char>>, a: int, b: int)
    requires
        0 <= a <= b,
        forall|k: int| a <= k < b ==> !scan::comp_token_at(s, k),
    ensures
        first_missing_comp(s, dom, a) == first_missing_comp(s, dom, b),
    decreases b - a,
{
    if a < b {
        lemma_fmc_no_comp_tokens(s, dom, a + 1, b);
    }
}

pub proof fn lemma_fve_no_var_tokens(
    s: Seq<char>,
    binds: Map<Seq<char>, ValueV>,
    ir: IrV,
    fuel: nat,
    a: int,
    b: int,
)
    requires
        0 <= a <= b,
        forall|k: int| a <= k < b ==> !scan::var_token_at(s, k),
    ensures
        first_var_err(s, binds, ir, fuel, a) == first_var_err(s, binds, ir, fuel, b),
    decreases b - a,
{
    if a < b {
        lemma_fve_no_var_tokens(s, binds, ir, fuel, a + 1, b);
    }
}

/// Scanning past a component token known to the mapping changes neither the
/// missing-component nor the failing-variable outcome.
pub proof fn lemma_scan_skip_comp(
    s: Seq<char>,
    dom: Set<Seq<char>>,
    binds: Map<Seq<char>, ValueV>,
    ir: IrV,
    fuel: nat,
    i: int,
)
    requires
        scan::comp_token_at(s, i),
        dom.contains(scan::comp_name_at(s, i)),
    ensures
        first_missing_comp(s, dom, i) == first_missing_comp(s, dom, scan::comp_end_at(s, i)),
        first_var_err(s, binds, ir, fuel, i) == first_var_err(
            s,
            binds,
            ir,
            fuel,
            scan::comp_end_at(s, i),
        ),
{
    let e = scan::comp_end_at(s, i);
    scan::lemma_comp_not_var(s, i);
    assert forall|k: int| i < k < e implies !scan::comp_token_at(s, k) && !scan::var_token_at(
        s,
        k,
    ) by {
        scan::lemma_no_token_inside_comp(s, i, k);
    }
    lemma_fmc_no_comp_tokens(s, dom, i + 1, e);
    lemma_fve_no_var_tokens(s, binds, ir, fuel, i, e);
}

/// Scanning past a variable token whose binding generates successfully
/// changes neither outcome.
pub proof fn lemma_scan_skip_var(
    s: Seq<char>,
    dom: Set<Seq<char>>,
    binds: Map<Seq<char>, ValueV>,
    ir: IrV,
    fuel: nat,
    i: int,
)
    requires
        scan::var_token_at(s, i),
        binds.contains_key(scan::var_name_at(s, i)) ==> gen_text(
            binds[scan::var_name_at(s, i)],
            ir,
            fuel,
        ) is Ok,
    ensures
        first_missing_comp(s, dom, i) == first_missing_comp(s, dom, scan::var_end_at(s, i)),
        first_var_err(s, binds, ir, fuel, i) == first_var_err(
            s,
            binds,
            ir,
            fuel,
            scan::var_end_at(s, i),
        ),
{
    let e = scan::var_end_at(s, i);
    scan::lemma_var_token_bounds(s, i);
    assert(!scan::comp_token_at(s, i)) by {
        if scan::comp_token_at(s, i) {
            scan::lemma_comp_not_var(s, i);
        }
    }
    assert forall|k: int| i < k < e implies !scan::comp_token_at(s, k) && !scan::var_token_at(
        s,
        k,
    ) by {
        scan::lemma_no_token_inside_var(s, i, k);
    }
    lemma_fmc_no_comp_tokens(s, dom, i, e);
    lemma_fve_no_var_tokens(s, binds, ir, fuel, i + 1, e);
}

/// One resolution pass: a referenced but unknown component is a hard error;
/// then the first failing referenced binding surfaces as a variable error;
/// otherwise the substitution sweep's result is returned.
pub open spec fn resolve_pass(
    s: Seq<char>,
    comps: Map<Seq<char>, Seq<char>>,
    binds: Map<Seq<char>, ValueV>,
    ir: IrV,
    fuel: nat,
) -> Result<Seq<char>, Seq<ErrStep>>
    decreases fuel, 4nat, 0int,
{
    match first_missing_comp(s, comps.dom(), 0) {
        Some(n) => Err(seq![ErrStep::MissingComponentInDoc(n)]),
        None => match first_var_err(s, binds, ir, fuel, 0) {
            Some(p) => Err(seq![ErrStep::VariableError(p.0)] + p.1),
            None => Ok(subst_from(s, comps, binds, ir, fuel, 0)),
        },
    }
}

/// Resolution to a fixed point: passes repeat while the result still
/// references a known component or bound variable, up to `passes` repeats
/// after the first.
pub open spec fn resolve_doc(
    s: Seq<char>,
    comps: Map<Seq<char>, Seq<char>>,
    binds: Map<Seq<char>, ValueV>,
    ir: IrV,
    fuel: nat,
    passes: nat,
) -> Result<Seq<char>, Seq<ErrStep>>
    decreases fuel, 5nat, passes,
{
    match resolve_pass(s, comps, binds, ir, fuel) {
        Err(e) => Err(e),
        Ok(t) => if fixpoint(t, comps.dom(), binds.dom()) {
            Ok(t)
        } else if passes == 0 {
            Err(seq![ErrStep::ResolveCycle])
        } else {
            resolve_doc(t, comps, binds, ir, fuel, (passes - 1) as nat)
        },
    }
}

/// Steps from `k` on, threaded over the document: each step merges its
/// bindings into the running set and resolves against the full set.
pub open spec fn exec_steps(
    steps: Seq<StepV>,
    k: int,
    binds: Map<Seq<char>, ValueV>,
    doc: Seq<char>,
    ir: IrV,
    fuel: nat,
) -> Result<Seq<char>, Seq<ErrStep>>
    decreases fuel, 6nat, steps.len() - k,
{
    if k < 0 || k >= steps.len() {
        Ok(doc)
    } else {
        let binds2 = merge_step(binds, steps[k].vars);
        match resolve_doc(doc, ir.components, binds2, ir, fuel, MAX_RESOLVE_PASSES as nat) {
            Err(e) => Err(seq![ErrStep::TemplateResolve] + e),
            Ok(d2) => exec_steps(steps, k + 1, binds2, d2, ir, fuel),
        }
    }
}

/// A procedure executed against an explicit starting document.
pub open spec fn exec_with_template(p: ProcV, tpl: Seq<char>, ir: IrV, fuel: nat) -> Result<
    Seq<char>,
    Seq<ErrStep>,
>
    decreases fuel, 7nat, 0int,
{
    exec_steps(p.steps, 0, Map::empty(), tpl, ir, fuel)
}

/// A procedure executed against its own named template.
pub open spec fn exec_proc(p: ProcV, ir: IrV, fuel: nat) -> Result<Seq<char>, Seq<ErrStep>> {
    if ir.templates.contains_key(p.template) {
        exec_with_template(p, ir.templates[p.template], ir, fuel)
    } else {
        Err(seq![ErrStep::TemplateNotFound(p.template)])
    }
}

/// The sort key of an index child: its creation timestamp, zero when absent.
pub open spec fn child_key(t: ParsedFsTree) -> u64 {
    match t.created {
        Some(c) => c,
        None => 0,
    }
}

/// Index order: newest first, and earlier siblings first among equal keys.
pub open spec fn order_lt(cs: Seq<ParsedFsTree>, a: int, b: int) -> bool {
    child_key(cs[a]) > child_key(cs[b]) || (child_key(cs[a]) == child_key(cs[b]) && a < b)
}

/// Insert an index into an ordered list of indices.
pub open spec fn insert_sorted(cs: Seq<ParsedFsTree>, l: Seq<int>, x: int) -> Seq<int>
    decreases l.len(),
{
    if l.len() == 0 {
        seq![x]
    } else if order_lt(cs, x, l[0]) {
        seq![x] + l
    } else {
        seq![l[0]] + insert_sorted(cs, l.drop_first(), x)
    }
}

/// The ordered indices of the first `n` children.
pub open spec fn order_upto(cs: Seq<ParsedFsTree>, n: int) -> Seq<int>
    decreases n,
{
    if n <= 0 {
        Seq::empty()
    } else {
        insert_sorted(cs, order_upto(cs, n - 1), n - 1)
    }
}

/// The ordered indices of all children.
pub open spec fn sorted_order(cs: Seq<ParsedFsTree>) -> Seq<int> {
    order_upto(cs, cs.len() as int)
}

/// A successful result with `prefix` put before its text; an error kept as it
/// is.
pub open spec fn prepend_ok(prefix: Seq<char>, r: Result<Seq<char>, Seq<ErrStep>>) -> Result<
    Seq<char>,
    Seq<ErrStep>,
> {
    match r {
        Ok(t) => Ok(prefix + t),
        Err(e) => Err(e),
    }
}

/// The synthetic leading step an index item runs with: it binds `link` to
/// the item's emitted path.
pub open spec fn link_step(out_name: Seq<char>) -> StepV {
    StepV { name: Some("~~ index vars"@), vars: seq![("link"@, ValueV::Text(out_name))] }
}

/// Index items from sort position `k` on: procedure children other than
/// `index.yml` are executed against the item template with the synthetic
/// `link` step, their outputs each preceded by a newline.
pub open spec fn index_items(
    children: Seq<ParsedFsTree>,
    order: Seq<int>,
    k: int,
    item_template: Seq<char>,
    ir: IrV,
    fuel: nat,
) -> Result<Seq<char>, Seq<ErrStep>>
    decreases fuel, 8nat, order.len() - k,
{
    if k < 0 || k >= order.len() {
        Ok(Seq::empty())
    } else if !(0 <= order[k] < children.len()) {
        index_items(children, order, k + 1, item_template, ir, fuel)
    } else {
        let child = children[order[k]];
        match child.content {
            ParsedFsEntry::BuildProcedure(proc) => {
                if child.name@ == "index.yml"@ {
                    index_items(children, order, k + 1, item_template, ir, fuel)
                } else if child.created is None {
                    Err(seq![ErrStep::TimestampMissing(child.name@)])
                } else if !ir.components.contains_key(item_template) {
                    Err(seq![ErrStep::MissingComponent(item_template)])
                } else {
                    let out_name = text::replace_from(child.name@, ".yml"@, ".html"@, 0);
                    let p2 = ProcV {
                        template: proc@.template,
                        steps: seq![link_step(out_name)] + proc@.steps,
                    };
                    match exec_with_template(p2, ir.components[item_template], ir, fuel) {
                        Err(e) => Err(seq![ErrStep::CantBuildIndexItem(child.name@)] + e),
                        Ok(h) => match index_items(
                            children,
                            order,
                            k + 1,
                            item_template,
                            ir,
                            fuel,
                        ) {
                            Err(e) => Err(e),
                            Ok(rest) => Ok(seq!['\n'] + h + rest),
                        },
                    }
                }
            },
            _ => index_items(children, order, k + 1, item_template, ir, fuel),
        }
    }
}

/// The text one value generates: literals and integers directly, timestamps
/// as an inline time element, file references through the page tree, and
/// index references as the concatenation of the directory's rendered
/// children, newest first.
pub open spec fn gen_text(v: ValueV, ir: IrV, fuel: nat) -> Result<Seq<char>, Seq<ErrStep>>
    decreases fuel, 1nat, 0int,
{
    match v {
        ValueV::Text(t) => Ok(t),
        ValueV::Int(n) => Ok(text::dec_str(n as int)),
        ValueV::UnixTimestamp(n) => if crate::trusted::timestamp_in_range(n) {
            Ok(
                "<time datetime=\""@ + crate::trusted::rfc3339_of(n) + "\">"@
                    + crate::trusted::date_of(n) + "</time>"@,
            )
        } else {
            Err(seq![ErrStep::TimestampOutOfRange])
        },
        ValueV::Md(path) => match page_entry(ir, path) {
            Some(ParsedFsEntry::TextFile(md)) => Ok(crate::trusted::markdown_html_of(md@)),
            _ => Err(seq![ErrStep::FileDoesntExist(path)]),
        },
        ValueV::TextFile(path) => match page_entry(ir, path) {
            Some(ParsedFsEntry::TextFile(t)) => Ok(t@),
            _ => Err(seq![ErrStep::FileDoesntExist(path)]),
        },
        ValueV::Index(path, item_template) => if fuel == 0 {
            Err(seq![ErrStep::IndexCycle])
        } else {
            match page_entry(ir, path) {
                Some(ParsedFsEntry::Directory(children)) => index_items(
                    children@,
                    sorted_order(children@),
                    0,
                    item_template,
                    ir,
                    (fuel - 1) as nat,
                ),
                _ => Err(seq![ErrStep::NoDirAtIndexPath(path)]),
            }
        },
    }
}

} // verus!
