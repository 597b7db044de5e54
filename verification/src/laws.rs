//! Laws of the engine, proved of the specification-level interpreter that
//! every executable function is tied to.

use vstd::prelude::*;
use crate::fs_tree::ParsedFsTree;
use crate::model::{first_missing_comp, first_var_err, insert_sorted, merge_step, order_lt, order_upto, resolve_doc, resolve_pass, sorted_order, subst_from, ErrStep, IrV};
use crate::procedure::StepV;
use crate::scan;
use crate::value::ValueV;

verus! {

proof fn lemma_fmc_none(s: Seq<char>, dom: Set<Seq<char>>, i: int)
    requires
        forall|k: int| !scan::comp_token_at(s, k),
    ensures
        first_missing_comp(s, dom, i) is None,
    decreases s.len() - i,
{
    if 0 <= i < s.len() {
        lemma_fmc_none(s, dom, i + 1);
    }
}

proof fn lemma_fve_none(
    s: Seq<char>,
    binds: Map<Seq<char>, ValueV>,
    ir: IrV,
    fuel: nat,
    i: int,
)
    requires
        forall|k: int| #[trigger]
            scan::var_token_at(s, k) ==> !binds.contains_key(scan::var_name_at(s, k)),
    ensures
        first_var_err(s, binds, ir, fuel, i) is None,
    decreases s.len() - i,
{
    if 0 <= i < s.len() {
        lemma_fve_none(s, binds, ir, fuel, i + 1);
    }
}

proof fn lemma_subst_identity(
    s: Seq<char>,
    comps: Map<Seq<char>, Seq<char>>,
    binds: Map<Seq<char>, ValueV>,
    ir: IrV,
    fuel: nat,
    i: int,
)
    requires
        0 <= i <= s.len(),
        forall|k: int| !scan::comp_token_at(s, k),
        forall|k: int| #[trigger]
            scan::var_token_at(s, k) ==> !binds.contains_key(scan::var_name_at(s, k)),
    ensures
        subst_from(s, comps, binds, ir, fuel, i) == s.subrange(i, s.len() as int),
    decreases s.len() - i,
{
    if i < s.len() {
        lemma_subst_identity(s, comps, binds, ir, fuel, i + 1);
        assert(seq![s[i]] + s.subrange(i + 1, s.len() as int) =~= s.subrange(i, s.len() as int));
    } else {
        assert(s.subrange(i, s.len() as int) =~= Seq::<char>::empty());
    }
}

/// Idempotence of full resolution: a document that has already reached fixed
/// point — it references no components, and no variable it references is
/// bound — resolves to content identical to the input.
///
/// A document that still references a component cannot be at a successful
/// fixed point at all: a referenced component is either known, in which case
/// substitution still applies, or unknown, in which case resolution fails
/// hard.
pub proof fn lemma_resolution_idempotent(
    s: Seq<char>,
    comps: Map<Seq<char>, Seq<char>>,
    binds: Map<Seq<char>, ValueV>,
    ir: IrV,
    fuel: nat,
    passes: nat,
)
    requires
        forall|k: int| !scan::comp_token_at(s, k),
        forall|k: int| #[trigger]
            scan::var_token_at(s, k) ==> !binds.contains_key(scan::var_name_at(s, k)),
    ensures
        resolve_doc(s, comps, binds, ir, fuel, passes) == Ok::<Seq<char>, Seq<ErrStep>>(s),
{
    lemma_fmc_none(s, comps.dom(), 0);
    lemma_fve_none(s, binds, ir, fuel, 0);
    lemma_subst_identity(s, comps, binds, ir, fuel, 0);
    assert(s.subrange(0, s.len() as int) =~= s);
    assert(resolve_pass(s, comps, binds, ir, fuel) == Ok::<Seq<char>, Seq<ErrStep>>(s));
    assert forall|k: int| #[trigger]
        scan::var_token_at(s, k) implies !binds.dom().contains(scan::var_name_at(s, k)) by {}
}

/// Variable soft-miss: a referenced variable without a binding leaves its
/// placeholder untouched, and resolution of a document whose references are
/// all such variables succeeds with the text unchanged.
pub proof fn lemma_variable_soft_miss(
    s: Seq<char>,
    comps: Map<Seq<char>, Seq<char>>,
    binds: Map<Seq<char>, ValueV>,
    ir: IrV,
    fuel: nat,
    passes: nat,
    i: int,
)
    requires
        scan::var_token_at(s, i),
        forall|k: int| !scan::comp_token_at(s, k),
        forall|k: int| #[trigger]
            scan::var_token_at(s, k) ==> !binds.contains_key(scan::var_name_at(s, k)),
    ensures
        resolve_doc(s, comps, binds, ir, fuel, passes) == Ok::<Seq<char>, Seq<ErrStep>>(s),
        scan::var_token_at(resolve_doc(s, comps, binds, ir, fuel, passes)->Ok_0, i),
{
    lemma_resolution_idempotent(s, comps, binds, ir, fuel, passes);
}

proof fn lemma_fmc_finds(s: Seq<char>, dom: Set<Seq<char>>, i: int, w: int)
    requires
        0 <= i <= w,
        scan::comp_token_at(s, w),
        !dom.contains(scan::comp_name_at(s, w)),
    ensures
        first_missing_comp(s, dom, i) is Some,
    decreases w - i,
{
    if i < w && !(scan::comp_token_at(s, i) && !dom.contains(scan::comp_name_at(s, i))) {
        lemma_fmc_finds(s, dom, i + 1, w);
    }
}

proof fn lemma_fmc_sound(s: Seq<char>, dom: Set<Seq<char>>, i: int)
    requires
        first_missing_comp(s, dom, i) is Some,
    ensures
        exists|k: int|
            #[trigger] scan::comp_token_at(s, k) && scan::comp_name_at(s, k)
                == first_missing_comp(s, dom, i)->Some_0 && !dom.contains(
                scan::comp_name_at(s, k),
            ),
    decreases s.len() - i,
{
    if 0 <= i < s.len() {
        if !(scan::comp_token_at(s, i) && !dom.contains(scan::comp_name_at(s, i))) {
            lemma_fmc_sound(s, dom, i + 1);
        }
    }
}

/// Component hard-fail: a document that references a component the supplied
/// mapping does not know fails resolution with a missing-component error
/// naming some referenced unknown component — unlike an unbound variable,
/// which is left in place.
pub proof fn lemma_component_hard_fail(
    s: Seq<char>,
    comps: Map<Seq<char>, Seq<char>>,
    binds: Map<Seq<char>, ValueV>,
    ir: IrV,
    fuel: nat,
    passes: nat,
    i: int,
)
    requires
        scan::comp_token_at(s, i),
        !comps.contains_key(scan::comp_name_at(s, i)),
    ensures
        resolve_doc(s, comps, binds, ir, fuel, passes) is Err,
        exists|n: Seq<char>|
            resolve_doc(s, comps, binds, ir, fuel, passes)->Err_0 == seq![
                ErrStep::MissingComponentInDoc(n),
            ] && (exists|k: int|
                #[trigger] scan::comp_token_at(s, k) && scan::comp_name_at(s, k) == n
                    && !comps.contains_key(n)),
{
    lemma_fmc_finds(s, comps.dom(), 0, i);
    lemma_fmc_sound(s, comps.dom(), 0);
    let n = first_missing_comp(s, comps.dom(), 0)->Some_0;
    assert(resolve_pass(s, comps, binds, ir, fuel) == Err::<Seq<char>, Seq<ErrStep>>(seq![
        ErrStep::MissingComponentInDoc(n),
    ]));
    assert(resolve_doc(s, comps, binds, ir, fuel, passes)->Err_0 == seq![
        ErrStep::MissingComponentInDoc(n),
    ]);
    let k = choose|k: int|
        #[trigger] scan::comp_token_at(s, k) && scan::comp_name_at(s, k) == n && !comps.dom().contains(
            scan::comp_name_at(s, k),
        );
    assert(resolve_doc(s, comps, binds, ir, fuel, passes)->Err_0 == seq![
        ErrStep::MissingComponentInDoc(n),
    ] && (exists|k: int|
        #[trigger] scan::comp_token_at(s, k) && scan::comp_name_at(s, k) == n
            && !comps.contains_key(n)));
}

proof fn lemma_merge_step_last(b: Map<Seq<char>, ValueV>, vars: Seq<(Seq<char>, ValueV)>, j: int)
    requires
        0 <= j < vars.len(),
        forall|k: int| j < k < vars.len() ==> (#[trigger] vars[k]).0 != vars[j].0,
    ensures
        merge_step(b, vars).contains_key(vars[j].0),
        merge_step(b, vars)[vars[j].0] == vars[j].1,
    decreases vars.len(),
{
    if j < vars.len() - 1 {
        assert(vars.drop_last()[j] == vars[j]);
        lemma_merge_step_last(b, vars.drop_last(), j);
    }
}

/// Shadowing: when a later step binds a variable name an earlier step also
/// bound, the binding set accumulated across both steps holds the later
/// step's value for that name, so resolution from the later step on renders
/// only the later value.
pub proof fn lemma_later_step_shadows(
    b: Map<Seq<char>, ValueV>,
    s1: StepV,
    s2: StepV,
    j: int,
)
    requires
        0 <= j < s2.vars.len(),
        forall|k: int| j < k < s2.vars.len() ==> (#[trigger] s2.vars[k]).0 != s2.vars[j].0,
    ensures
        merge_step(merge_step(b, s1.vars), s2.vars).contains_key(s2.vars[j].0),
        merge_step(merge_step(b, s1.vars), s2.vars)[s2.vars[j].0] == s2.vars[j].1,
{
    lemma_merge_step_last(merge_step(b, s1.vars), s2.vars, j);
}

proof fn lemma_insert_sorted_elems(cs: Seq<ParsedFsTree>, l: Seq<int>, x: int)
    ensures
        insert_sorted(cs, l, x).len() == l.len() + 1,
        forall|q: int|
            0 <= q < insert_sorted(cs, l, x).len() ==> (#[trigger] insert_sorted(cs, l, x)[q]
                == x || exists|p: int| 0 <= p < l.len() && l[p] == insert_sorted(cs, l, x)[q]),
        forall|p: int|
            0 <= p < l.len() ==> exists|q: int|
                0 <= q < insert_sorted(cs, l, x).len() && insert_sorted(cs, l, x)[q]
                    == #[trigger] l[p],
        exists|q: int|
            0 <= q < insert_sorted(cs, l, x).len() && insert_sorted(cs, l, x)[q] == x,
    decreases l.len(),
{
    let r = insert_sorted(cs, l, x);
    if l.len() == 0 {
        assert(r[0] == x);
    } else if order_lt(cs, x, l[0]) {
        assert(r[0] == x);
        assert(forall|p: int| 0 <= p < l.len() ==> r[p + 1] == #[trigger] l[p]);
    } else {
        lemma_insert_sorted_elems(cs, l.drop_first(), x);
        let rr = insert_sorted(cs, l.drop_first(), x);
        assert(r[0] == l[0]);
        assert(forall|q: int| 0 <= q < rr.len() ==> r[q + 1] == #[trigger] rr[q]);
        assert forall|p: int| 0 <= p < l.len() implies exists|q: int|
            0 <= q < r.len() && r[q] == #[trigger] l[p] by {
            if p == 0 {
                assert(r[0] == l[p]);
            } else {
                assert(l.drop_first()[p - 1] == l[p]);
                let q = choose|q: int| 0 <= q < rr.len() && rr[q] == l.drop_first()[p - 1];
                assert(r[q + 1] == l[p]);
            }
        }
        let q = choose|q: int| 0 <= q < rr.len() && rr[q] == x;
        assert(r[q + 1] == x);
    }
}

#[verifier::rlimit(50)]
proof fn lemma_insert_sorted_sorted(cs: Seq<ParsedFsTree>, l: Seq<int>, x: int)
    requires
        forall|a: int, b: int| 0 <= a < b < l.len() ==> order_lt(cs, #[trigger] l[a], #[trigger] l[b]),
        forall|p: int| 0 <= p < l.len() ==> #[trigger] l[p] != x,
        forall|p: int|
            0 <= p < l.len() ==> !order_lt(cs, x, #[trigger] l[p]) ==> order_lt(cs, l[p], x),
    ensures
        forall|a: int, b: int|
            0 <= a < b < insert_sorted(cs, l, x).len() ==> order_lt(
                cs,
                #[trigger] insert_sorted(cs, l, x)[a],
                #[trigger] insert_sorted(cs, l, x)[b],
            ),
    decreases l.len(),
{
    let r = insert_sorted(cs, l, x);
    lemma_insert_sorted_elems(cs, l, x);
    if l.len() == 0 {
    } else if order_lt(cs, x, l[0]) {
        assert(r[0] == x);
        assert(forall|p: int| 0 <= p < l.len() ==> r[p + 1] == #[trigger] l[p]);
        assert forall|a: int, b: int| 0 <= a < b < r.len() implies order_lt(
            cs,
            r[a],
            r[b],
        ) by {
            if a == 0 {
                if b == 1 {
                    assert(r[b] == l[0]);
                } else {
                    assert(r[b] == l[b - 1]);
                    assert(order_lt(cs, l[0], l[b - 1]));
                    assert(order_lt(cs, x, l[0]));
                }
            } else {
                assert(r[a] == l[a - 1] && r[b] == l[b - 1]);
            }
        }
    } else {
        let tail = l.drop_first();
        assert(forall|p: int| 0 <= p < tail.len() ==> tail[p] == #[trigger] l[p + 1]);
        lemma_insert_sorted_sorted(cs, tail, x);
        let rr = insert_sorted(cs, tail, x);
        lemma_insert_sorted_elems(cs, tail, x);
        assert(r[0] == l[0]);
        assert(forall|q: int| 0 <= q < rr.len() ==> r[q + 1] == #[trigger] rr[q]);
        assert forall|a: int, b: int| 0 <= a < b < r.len() implies order_lt(
            cs,
            r[a],
            r[b],
        ) by {
            if a == 0 {
                assert(r[b] == rr[b - 1]);
                if rr[b - 1] == x {
                    assert(order_lt(cs, l[0], x));
                } else {
                    let p = choose|p: int| 0 <= p < tail.len() && tail[p] == rr[b - 1];
                    assert(order_lt(cs, l[0], l[p + 1]));
                }
            } else {
                assert(r[a] == rr[a - 1] && r[b] == rr[b - 1]);
            }
        }
    }
}

proof fn lemma_order_upto_props(cs: Seq<ParsedFsTree>, n: int)
    requires
        0 <= n <= cs.len(),
    ensures
        order_upto(cs, n).len() == n,
        forall|q: int| 0 <= q < n ==> 0 <= #[trigger] order_upto(cs, n)[q] < n,
        forall|i: int| 0 <= i < n ==> order_upto(cs, n).contains(i),
        forall|a: int, b: int|
            0 <= a < b < n ==> order_lt(
                cs,
                #[trigger] order_upto(cs, n)[a],
                #[trigger] order_upto(cs, n)[b],
            ),
    decreases n,
{
    if n > 0 {
        lemma_order_upto_props(cs, n - 1);
        let l = order_upto(cs, n - 1);
        let x = n - 1;
        lemma_insert_sorted_elems(cs, l, x);
        assert(forall|p: int| 0 <= p < l.len() ==> #[trigger] l[p] != x);
        assert forall|p: int|
            0 <= p < l.len() && !order_lt(cs, x, #[trigger] l[p]) implies order_lt(
            cs,
            l[p],
            x,
        ) by {}
        lemma_insert_sorted_sorted(cs, l, x);
        let r = order_upto(cs, n);
        assert(r == insert_sorted(cs, l, x));
        assert forall|q: int| 0 <= q < n implies 0 <= #[trigger] r[q] < n by {
            if r[q] != x {
                let p = choose|p: int| 0 <= p < l.len() && l[p] == r[q];
            }
        }
        assert forall|i: int| 0 <= i < n implies r.contains(i) by {
            if i < n - 1 {
                assert(l.contains(i));
                let p = choose|p: int| 0 <= p < l.len() && l[p] == i;
                let q = choose|q: int|
                    0 <= q < insert_sorted(cs, l, x).len() && insert_sorted(cs, l, x)[q] == l[p];
                assert(r[q] == i);
            } else {
                let q = choose|q: int|
                    0 <= q < insert_sorted(cs, l, x).len() && insert_sorted(cs, l, x)[q] == x;
                assert(r[q] == i);
            }
        }
    }
}

/// Index ordering: the order an index walks a directory's children in lists
/// every child exactly once, newest first by creation timestamp, with
/// earlier siblings first among equal timestamps.
pub proof fn lemma_index_ordering(cs: Seq<ParsedFsTree>)
    ensures
        sorted_order(cs).len() == cs.len(),
        forall|q: int| 0 <= q < cs.len() ==> 0 <= #[trigger] sorted_order(cs)[q] < cs.len(),
        forall|i: int| 0 <= i < cs.len() ==> sorted_order(cs).contains(i),
        forall|a: int, b: int|
            0 <= a < b < cs.len() ==> order_lt(
                cs,
                #[trigger] sorted_order(cs)[a],
                #[trigger] sorted_order(cs)[b],
            ),
{
    lemma_order_upto_props(cs, cs.len() as int);
}

proof fn lemma_insert_sorted_congruent(
    cs1: Seq<ParsedFsTree>,
    cs2: Seq<ParsedFsTree>,
    l: Seq<int>,
    x: int,
)
    requires
        cs1.len() == cs2.len(),
        forall|i: int|
            0 <= i < cs1.len() ==> crate::model::child_key(#[trigger] cs1[i])
                == crate::model::child_key(cs2[i]),
        forall|p: int| 0 <= p < l.len() ==> 0 <= #[trigger] l[p] < cs1.len(),
        0 <= x < cs1.len(),
    ensures
        insert_sorted(cs1, l, x) == insert_sorted(cs2, l, x),
    decreases l.len(),
{
    if l.len() > 0 {
        assert(order_lt(cs1, x, l[0]) == order_lt(cs2, x, l[0]));
        if !order_lt(cs1, x, l[0]) {
            assert(forall|p: int| 0 <= p < l.drop_first().len() ==> l.drop_first()[p] == l[p + 1]);
            lemma_insert_sorted_congruent(cs1, cs2, l.drop_first(), x);
        }
    }
}

proof fn lemma_order_upto_congruent(cs1: Seq<ParsedFsTree>, cs2: Seq<ParsedFsTree>, n: int)
    requires
        cs1.len() == cs2.len(),
        0 <= n <= cs1.len(),
        forall|i: int|
            0 <= i < cs1.len() ==> crate::model::child_key(#[trigger] cs1[i])
                == crate::model::child_key(cs2[i]),
    ensures
        order_upto(cs1, n) == order_upto(cs2, n),
    decreases n,
{
    if n > 0 {
        lemma_order_upto_congruent(cs1, cs2, n - 1);
        lemma_order_upto_props(cs1, n - 1);
        lemma_insert_sorted_congruent(cs1, cs2, order_upto(cs1, n - 1), n - 1);
    }
}

proof fn lemma_index_insensitive(
    cs1: Seq<ParsedFsTree>,
    cs2: Seq<ParsedFsTree>,
    order: Seq<int>,
    k: int,
    tpl: Seq<char>,
    ir: IrV,
    fuel: nat,
)
    requires
        cs1.len() == cs2.len(),
        forall|i: int|
            0 <= i < cs1.len() ==> (#[trigger] cs1[i]).name@ == cs2[i].name@ && cs1[i].created
                == cs2[i].created,
        forall|i: int|
            0 <= i < cs1.len() && (#[trigger] cs1[i]).name@ != "index.yml"@ ==> cs1[i].content
                == cs2[i].content,
    ensures
        crate::model::index_items(cs1, order, k, tpl, ir, fuel) == crate::model::index_items(
            cs2,
            order,
            k,
            tpl,
            ir,
            fuel,
        ),
    decreases order.len() - k,
{
    if 0 <= k < order.len() {
        lemma_index_insensitive(cs1, cs2, order, k + 1, tpl, ir, fuel);
    }
}

/// Index self-exclusion: the generated index fragment never includes the
/// rendering of a child named `index.yml` — two directories that differ only
/// in what their `index.yml` entries hold produce identical fragments,
/// whatever those entries' timestamps are.
pub proof fn lemma_index_self_exclusion(
    cs1: Seq<ParsedFsTree>,
    cs2: Seq<ParsedFsTree>,
    tpl: Seq<char>,
    ir: IrV,
    fuel: nat,
)
    requires
        cs1.len() == cs2.len(),
        forall|i: int|
            0 <= i < cs1.len() ==> (#[trigger] cs1[i]).name@ == cs2[i].name@ && cs1[i].created
                == cs2[i].created,
        forall|i: int|
            0 <= i < cs1.len() && (#[trigger] cs1[i]).name@ != "index.yml"@ ==> cs1[i].content
                == cs2[i].content,
    ensures
        crate::model::index_items(cs1, sorted_order(cs1), 0, tpl, ir, fuel)
            == crate::model::index_items(cs2, sorted_order(cs2), 0, tpl, ir, fuel),
{
    lemma_order_upto_congruent(cs1, cs2, cs1.len() as int);
    lemma_index_insensitive(cs1, cs2, sorted_order(cs1), 0, tpl, ir, fuel);
}

proof fn lemma_items_err(
    cs: Seq<ParsedFsTree>,
    order: Seq<int>,
    k: int,
    tpl: Seq<char>,
    ir: IrV,
    fuel: nat,
    q: int,
)
    requires
        0 <= k <= q < order.len(),
        forall|p: int| 0 <= p < order.len() ==> 0 <= #[trigger] order[p] < cs.len(),
        cs[order[q]].content is BuildProcedure,
        cs[order[q]].name@ != "index.yml"@,
        cs[order[q]].created is None,
    ensures
        crate::model::index_items(cs, order, k, tpl, ir, fuel) is Err,
    decreases order.len() - k,
{
    if k < q {
        lemma_items_err(cs, order, k + 1, tpl, ir, fuel, q);
    }
}

/// Missing-timestamp index failure: a procedure child (other than
/// `index.yml`) that lacks a creation timestamp makes index generation fail;
/// it is never silently given a default timestamp.
pub proof fn lemma_missing_timestamp_fails(
    cs: Seq<ParsedFsTree>,
    tpl: Seq<char>,
    ir: IrV,
    fuel: nat,
    i: int,
)
    requires
        0 <= i < cs.len(),
        cs[i].content is BuildProcedure,
        cs[i].name@ != "index.yml"@,
        cs[i].created is None,
    ensures
        crate::model::index_items(cs, sorted_order(cs), 0, tpl, ir, fuel) is Err,
{
    lemma_order_upto_props(cs, cs.len() as int);
    let order = sorted_order(cs);
    assert(order.contains(i));
    let q = choose|q: int| 0 <= q < order.len() && order[q] == i;
    lemma_items_err(cs, order, 0, tpl, ir, fuel, q);
}

} // verus!
