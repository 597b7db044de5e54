//! The HTML document wrapper: raw markup together with the variable names,
//! component names and CSS class names it statically contains.

use vstd::prelude::*;
use crate::ir::{binds_view, doc_texts, IR};
use crate::model;
use crate::scan;
use crate::strmap::StrMap;
use crate::value::Value;

verus! {

/// The mathematical shape of a document: its text and the three derived name
/// lists.
pub struct DocV {
    pub text: Seq<char>,
    pub vars: Seq<Seq<char>>,
    pub comps: Seq<Seq<char>>,
    pub classes: Seq<Seq<char>>,
}

/// A list of strings contains exactly `n` once.
pub open spec fn seq_has_name(l: Seq<Seq<char>>, n: Seq<char>) -> bool {
    exists|j: int| 0 <= j < l.len() && l[j] == n
}

/// The derived lists are faithful to the text: every listed variable name is
/// referenced, every referenced name is listed, likewise for components, and
/// the class list is what the HTML parser finds.
pub open spec fn doc_wf(d: DocV) -> bool {
    &&& forall|j: int| 0 <= j < d.vars.len() ==> scan::has_var_named(d.text, #[trigger] d.vars[j])
    &&& forall|i: int| #[trigger]
        scan::var_token_at(d.text, i) ==> seq_has_name(d.vars, scan::var_name_at(d.text, i))
    &&& forall|j: int|
        0 <= j < d.comps.len() ==> scan::has_comp_named(d.text, #[trigger] d.comps[j])
    &&& forall|i: int| #[trigger]
        scan::comp_token_at(d.text, i) ==> seq_has_name(d.comps, scan::comp_name_at(d.text, i))
    &&& d.classes == crate::trusted::classes_of(d.text)
}

/// Raw markup plus the names of the variables, components and CSS classes it
/// references.
#[derive(Debug)]
pub struct FwHTML {
    /// Raw html as present in the template.
    data: String,
    used_variables: Vec<String>,
    used_components: Vec<String>,
    used_class_names: Vec<String>,
}

impl View for FwHTML {
    type V = DocV;

    closed spec fn view(&self) -> DocV {
        DocV {
            text: self.data@,
            vars: self.used_variables.deep_view(),
            comps: self.used_components.deep_view(),
            classes: self.used_class_names.deep_view(),
        }
    }
}

impl Clone for FwHTML {
    fn clone(&self) -> (res: Self)
        ensures
            res@ == self@,
    {
        let res = FwHTML {
            data: self.data.clone(),
            used_variables: self.used_variables.clone(),
            used_components: self.used_components.clone(),
            used_class_names: self.used_class_names.clone(),
        };
        proof {
            assert(res.used_variables@ =~= self.used_variables@);
            assert(res.used_components@ =~= self.used_components@);
            assert(res.used_class_names@ =~= self.used_class_names@);
        }
        res
    }
}

/// The text begins with the document-type declaration that every template
/// must carry.
pub open spec fn is_template_text(s: Seq<char>) -> bool {
    crate::text::match_at(s, "<!DOCTYPE html>"@, 0)
}

impl FwHTML {
    /// Wrap markup, deriving its variable, component and class lists.
    pub fn new(data: String) -> (r: Result<Self, FwHTMLError>)
        ensures
            r matches Ok(d) && d@.text == data@ && doc_wf(d@),
    {
        let used_variables = scan::scan_variables(data.as_str());
        let used_components = scan::scan_components(data.as_str());
        let used_class_names = crate::trusted::classes(data.as_str());
        let d = FwHTML { data, used_variables, used_components, used_class_names };
        proof {
            assert forall|j: int| 0 <= j < d@.vars.len() implies scan::has_var_named(
                d@.text,
                #[trigger] d@.vars[j],
            ) by {
                assert(d@.vars[j] == d.used_variables@[j]@);
            }
            assert forall|i: int| #[trigger]
                scan::var_token_at(d@.text, i) implies seq_has_name(
                d@.vars,
                scan::var_name_at(d@.text, i),
            ) by {
                assert(scan::list_has_str(d.used_variables@, scan::var_name_at(d@.text, i)));
                let j = choose|j: int|
                    0 <= j < d.used_variables@.len() && d.used_variables@[j]@ == scan::var_name_at(
                        d@.text,
                        i,
                    );
                assert(d@.vars[j] == scan::var_name_at(d@.text, i));
            }
            assert forall|j: int| 0 <= j < d@.comps.len() implies scan::has_comp_named(
                d@.text,
                #[trigger] d@.comps[j],
            ) by {
                assert(d@.comps[j] == d.used_components@[j]@);
            }
            assert forall|i: int| #[trigger]
                scan::comp_token_at(d@.text, i) implies seq_has_name(
                d@.comps,
                scan::comp_name_at(d@.text, i),
            ) by {
                assert(scan::list_has_str(d.used_components@, scan::comp_name_at(d@.text, i)));
                let j = choose|j: int|
                    0 <= j < d.used_components@.len() && d.used_components@[j]@
                        == scan::comp_name_at(d@.text, i);
                assert(d@.comps[j] == scan::comp_name_at(d@.text, i));
            }
        }
        Ok(d)
    }

    /// Wrap markup that must be a template: it has to begin with the literal
    /// `<!DOCTYPE html>` marker.
    pub fn template(data: String) -> (r: Result<Self, FwHTMLError>)
        ensures
            match r {
                Ok(d) => is_template_text(data@) && d@.text == data@ && doc_wf(d@),
                Err(e) => !is_template_text(data@) && e matches FwHTMLError::NotATemplate,
            },
    {
        let ok = crate::text::has_match_at(&data.as_str(), "<!DOCTYPE html>", 0);
        if !ok {
            return Err(FwHTMLError::NotATemplate);
        }
        Self::new(data)
    }

    /// The raw markup.
    pub fn output(&self) -> (r: String)
        ensures
            r@ == self@.text,
    {
        self.data.clone()
    }

    /// Borrow the raw markup.
    pub(crate) fn text_str(&self) -> (r: &str)
        ensures
            r@ == self@.text,
    {
        self.data.as_str()
    }

    pub(crate) fn resolved_fuel(
        &self,
        components: &StrMap<FwHTML>,
        variables: &StrMap<Value>,
        data: &IR,
        fuel: u64,
        passes: u64,
    ) -> (r: Result<Self, FwHTMLResolveError>)
        ensures
            ({
                let spec_r = model::resolve_doc(
                    self@.text,
                    doc_texts(components.as_map()),
                    binds_view(variables.as_map()),
                    data@,
                    fuel as nat,
                    passes as nat,
                );
                match r {
                    Ok(d) => spec_r is Ok && spec_r->Ok_0 == d@.text && doc_wf(d@),
                    Err(e) => spec_r is Err && spec_r->Err_0 == model::resolve_err_trace(e),
                }
            }),
        decreases fuel, 5int, passes,
    {
        let ghost cm = doc_texts(components.as_map());
        let ghost bm = binds_view(variables.as_map());
        proof {
            crate::ir::lemma_doc_texts(components.as_map());
            crate::ir::lemma_binds_view(variables.as_map());
        }
        let t = match resolve_pass_exec(self.data.as_str(), components, variables, data, fuel) {
            Err(e) => {
                return Err(e);
            },
            Ok(t) => t,
        };
        let d2 = match Self::new(t) {
            Ok(d) => d,
            Err(e) => {
                proof {
                    assert(false);
                }
                return Err(FwHTMLResolveError::GeneratesErrorInDocument(e));
            },
        };
        let still_comp = any_comp_known(&d2.used_components, components);
        let still_var = any_var_known(&d2.used_variables, variables);
        if !still_comp && !still_var {
            proof {
                assert(model::fixpoint(d2@.text, cm.dom(), bm.dom())) by {
                    assert forall|i: int| #[trigger]
                        scan::comp_token_at(d2@.text, i) implies !cm.dom().contains(
                        scan::comp_name_at(d2@.text, i),
                    ) by {
                        assert(seq_has_name(d2@.comps, scan::comp_name_at(d2@.text, i)));
                        let j = choose|j: int|
                            0 <= j < d2@.comps.len() && d2@.comps[j] == scan::comp_name_at(
                                d2@.text,
                                i,
                            );
                        assert(d2.used_components@[j]@ == scan::comp_name_at(d2@.text, i));
                    }
                    assert forall|i: int| #[trigger]
                        scan::var_token_at(d2@.text, i) implies !bm.dom().contains(
                        scan::var_name_at(d2@.text, i),
                    ) by {
                        assert(seq_has_name(d2@.vars, scan::var_name_at(d2@.text, i)));
                        let j = choose|j: int|
                            0 <= j < d2@.vars.len() && d2@.vars[j] == scan::var_name_at(
                                d2@.text,
                                i,
                            );
                        assert(d2.used_variables@[j]@ == scan::var_name_at(d2@.text, i));
                    }
                }
            }
            Ok(d2)
        } else {
            proof {
                assert(!model::fixpoint(d2@.text, cm.dom(), bm.dom())) by {
                    if still_comp {
                        let j = choose|j: int|
                            0 <= j < d2.used_components@.len() && components.as_map().contains_key(
                                #[trigger] d2.used_components@[j]@,
                            );
                        assert(scan::has_comp_named(d2@.text, d2@.comps[j]));
                        let i = choose|i: int|
                            scan::comp_token_at(d2@.text, i) && scan::comp_name_at(d2@.text, i)
                                == d2@.comps[j];
                        assert(scan::comp_token_at(d2@.text, i));
                    } else {
                        let j = choose|j: int|
                            0 <= j < d2.used_variables@.len() && variables.as_map().contains_key(
                                #[trigger] d2.used_variables@[j]@,
                            );
                        assert(scan::has_var_named(d2@.text, d2@.vars[j]));
                        let i = choose|i: int|
                            scan::var_token_at(d2@.text, i) && scan::var_name_at(d2@.text, i)
                                == d2@.vars[j];
                        assert(scan::var_token_at(d2@.text, i));
                    }
                }
            }
            if passes == 0 {
                Err(FwHTMLResolveError::CycleDetected)
            } else {
                d2.resolved_fuel(components, variables, data, fuel, passes - 1)
            }
        }
    }

    /// Substitute known components and bound variables, re-scanning and
    /// repeating until no known reference remains: nested components expand
    /// fully. Resolution that keeps introducing known references beyond the
    /// pass guard fails with a cycle error. An unknown referenced component
    /// is a hard error; a variable without a binding is left in place.
    pub fn resolved(
        &self,
        components: &StrMap<FwHTML>,
        variables: &StrMap<Value>,
        data: &IR,
    ) -> (r: Result<Self, FwHTMLResolveError>)
        ensures
            ({
                let spec_r = model::resolve_doc(
                    self@.text,
                    doc_texts(components.as_map()),
                    binds_view(variables.as_map()),
                    data@,
                    model::MAX_INDEX_DEPTH as nat,
                    model::MAX_RESOLVE_PASSES as nat,
                );
                match r {
                    Ok(d) => spec_r is Ok && spec_r->Ok_0 == d@.text && doc_wf(d@),
                    Err(e) => spec_r is Err && spec_r->Err_0 == model::resolve_err_trace(e),
                }
            }),
    {
        self.resolved_fuel(
            components,
            variables,
            data,
            model::MAX_INDEX_DEPTH,
            model::MAX_RESOLVE_PASSES,
        )
    }
}

/// The first referenced component, in text order, that the mapping does not
/// know.
fn find_missing_component(s: &str, comps: &StrMap<FwHTML>) -> (r: Option<String>)
    ensures
        match r {
            Some(n) => model::first_missing_comp(s@, doc_texts(comps.as_map()).dom(), 0)
                == Some(n@),
            None => model::first_missing_comp(s@, doc_texts(comps.as_map()).dom(), 0) is None,
        },
{
    proof {
        crate::ir::lemma_doc_texts(comps.as_map());
    }
    let ghost dom = doc_texts(comps.as_map()).dom();
    let n = s.unicode_len();
    let mut i: usize = 0;
    while i < n
        invariant
            n == s@.len(),
            i <= n,
            dom == doc_texts(comps.as_map()).dom(),
            dom =~= comps.as_map().dom(),
            model::first_missing_comp(s@, dom, 0) == model::first_missing_comp(s@, dom, i as int),
        decreases n - i,
    {
        if let Some(e) = scan::comp_token_end(s, i) {
            proof {
                scan::lemma_name_end(s@, i + 14);
            }
            let name = s.substring_char(i + 14, e - 3);
            if !comps.contains(name) {
                return Some(name.to_owned());
            }
        }
        i = i + 1;
    }
    None
}

fn any_comp_known(l: &Vec<String>, m: &StrMap<FwHTML>) -> (r: bool)
    ensures
        r == exists|j: int| 0 <= j < l@.len() && m.as_map().contains_key(#[trigger] l@[j]@),
{
    let mut j: usize = 0;
    while j < l.len()
        invariant
            j <= l@.len(),
            forall|k: int| 0 <= k < j ==> !m.as_map().contains_key(#[trigger] l@[k]@),
        decreases l@.len() - j,
    {
        if m.contains(l[j].as_str()) {
            return true;
        }
        j = j + 1;
    }
    false
}

fn any_var_known(l: &Vec<String>, m: &StrMap<Value>) -> (r: bool)
    ensures
        r == exists|j: int| 0 <= j < l@.len() && m.as_map().contains_key(#[trigger] l@[j]@),
{
    let mut j: usize = 0;
    while j < l.len()
        invariant
            j <= l@.len(),
            forall|k: int| 0 <= k < j ==> !m.as_map().contains_key(#[trigger] l@[k]@),
        decreases l@.len() - j,
    {
        if m.contains(l[j].as_str()) {
            return true;
        }
        j = j + 1;
    }
    false
}

/// One substitution pass over `s`: components first checked present, then
/// bound variables evaluated and substituted in text order.
pub(crate) fn resolve_pass_exec(
    s: &str,
    comps: &StrMap<FwHTML>,
    binds: &StrMap<Value>,
    data: &IR,
    fuel: u64,
) -> (r: Result<String, FwHTMLResolveError>)
    ensures
        ({
            let spec_r = model::resolve_pass(
                s@,
                doc_texts(comps.as_map()),
                binds_view(binds.as_map()),
                data@,
                fuel as nat,
            );
            match r {
                Ok(t) => spec_r is Ok && spec_r->Ok_0 == t@,
                Err(e) => spec_r is Err && spec_r->Err_0 == model::resolve_err_trace(e),
            }
        }),
    decreases fuel, 4int, 0int,
{
    let ghost cm = doc_texts(comps.as_map());
    let ghost bm = binds_view(binds.as_map());
    let ghost irv = data@;
    proof {
        crate::ir::lemma_doc_texts(comps.as_map());
        crate::ir::lemma_binds_view(binds.as_map());
    }
    if let Some(missing) = find_missing_component(s, comps) {
        return Err(FwHTMLResolveError::MissingComponent(missing));
    }
    let n = s.unicode_len();
    let mut out = String::new();
    let mut i: usize = 0;
    while i < n
        invariant
            n == s@.len(),
            i <= n,
            cm == doc_texts(comps.as_map()),
            bm == binds_view(binds.as_map()),
            irv == data@,
            cm.dom() =~= comps.as_map().dom(),
            bm.dom() =~= binds.as_map().dom(),
            model::first_missing_comp(s@, cm.dom(), 0) is None,
            model::first_missing_comp(s@, cm.dom(), i as int) is None,
            model::first_var_err(s@, bm, irv, fuel as nat, 0) == model::first_var_err(
                s@,
                bm,
                irv,
                fuel as nat,
                i as int,
            ),
            model::subst_from(s@, cm, bm, irv, fuel as nat, 0) == out@ + model::subst_from(
                s@,
                cm,
                bm,
                irv,
                fuel as nat,
                i as int,
            ),
        decreases n - i,
    {
        if let Some(e) = scan::comp_token_end(s, i) {
            proof {
                scan::lemma_name_end(s@, i + 14);
            }
            let name = s.substring_char(i + 14, e - 3);
            match comps.get(name) {
                Some(comp) => {
                    out.append(comp.text_str());
                    proof {
                        crate::ir::lemma_doc_texts(comps.as_map());
                        model::lemma_scan_skip_comp(s@, cm.dom(), bm, irv, fuel as nat, i as int);
                    }
                    i = e;
                },
                None => {
                    proof {
                        crate::ir::lemma_doc_texts(comps.as_map());
                        assert(model::first_missing_comp(s@, cm.dom(), i as int) == Some(
                            scan::comp_name_at(s@, i as int),
                        ));
                        assert(false);
                    }
                    return Err(FwHTMLResolveError::MissingComponent(name.to_owned()));
                },
            }
        } else if let Some(e) = scan::var_token_end(s, i) {
            proof {
                scan::lemma_name_end(s@, i + 3);
            }
            let name = s.substring_char(i + 3, e - 3);
            match binds.get(name) {
                Some(value) => {
                    match value.generate_fuel(data, fuel) {
                        Ok(txt) => {
                            out.append(txt.as_str());
                            proof {
                                crate::ir::lemma_binds_view(binds.as_map());
                                model::lemma_scan_skip_var(
                                    s@,
                                    cm.dom(),
                                    bm,
                                    irv,
                                    fuel as nat,
                                    i as int,
                                );
                            }
                            i = e;
                        },
                        Err(err) => {
                            proof {
                                crate::ir::lemma_binds_view(binds.as_map());
                                assert(model::first_var_err(s@, bm, irv, fuel as nat, i as int)
                                    == Some((name@, model::gen_err_trace(err))));
                            }
                            return Err(
                                FwHTMLResolveError::VariableError(name.to_owned(), Box::new(err)),
                            );
                        },
                    }
                },
                None => {
                    out.append(s.substring_char(i, i + 1));
                    proof {
                        assert(s@.subrange(i as int, i + 1) =~= seq![s@[i as int]]);
                        if scan::comp_token_at(s@, i as int) {
                            scan::lemma_comp_not_var(s@, i as int);
                        }
                    }
                    i = i + 1;
                },
            }
        } else {
            out.append(s.substring_char(i, i + 1));
            proof {
                assert(s@.subrange(i as int, i + 1) =~= seq![s@[i as int]]);
            }
            i = i + 1;
        }
    }
    proof {
        assert(out@ =~= out@ + model::subst_from(s@, cm, bm, irv, fuel as nat, n as int));
    }
    Ok(out)
}

/// Why wrapping markup failed.
#[derive(Debug)]
pub enum FwHTMLError {
    DocumentContainsErrors(Vec<String>),
    /// Doesn't start with `<!DOCTYPE html>`.
    NotATemplate,
}

/// Why resolving a document failed.
#[derive(Debug)]
pub enum FwHTMLResolveError {
    MissingComponent(String),
    VariableError(String, Box<crate::value::ValueGenerationError>),
    GeneratesErrorInDocument(FwHTMLError),
    /// The pass guard tripped: substitution kept introducing placeholders the
    /// mappings know, which a cyclic component or variable would otherwise
    /// turn into an endless loop.
    CycleDetected,
}

/// The names of the variables the markup references, each once, in order of
/// first occurrence.
pub fn used_variables(html: &str) -> (r: Vec<String>)
    ensures
        forall|j: int| 0 <= j < r@.len() ==> scan::has_var_named(html@, #[trigger] r@[j]@),
        forall|i: int| #[trigger]
            scan::var_token_at(html@, i) ==> scan::list_has_str(r@, scan::var_name_at(html@, i)),
        forall|j: int, k: int| 0 <= j < k < r@.len() ==> r@[j]@ != r@[k]@,
{
    scan::scan_variables(html)
}

/// The names of the components the markup references, each once, in order of
/// first occurrence.
pub fn used_components(html: &str) -> (r: Vec<String>)
    ensures
        forall|j: int| 0 <= j < r@.len() ==> scan::has_comp_named(html@, #[trigger] r@[j]@),
        forall|i: int| #[trigger]
            scan::comp_token_at(html@, i) ==> scan::list_has_str(r@, scan::comp_name_at(html@, i)),
        forall|j: int, k: int| 0 <= j < k < r@.len() ==> r@[j]@ != r@[k]@,
{
    scan::scan_components(html)
}

} // verus!
