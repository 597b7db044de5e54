//! Build procedures: an ordered list of named steps, each binding variable
//! names to values, executed against a named base template.

use vstd::prelude::*;
use crate::value::{Value, ValueV};

verus! {

/// One named batch of variable bindings, applied in source order.
#[derive(Debug)]
pub struct Step {
    pub name: Option<String>,
    pub vars: Vec<(String, Value)>,
}

/// The mathematical shape of a `Step`.
pub struct StepV {
    pub name: Option<Seq<char>>,
    pub vars: Seq<(Seq<char>, ValueV)>,
}

impl View for Step {
    type V = StepV;

    open spec fn view(&self) -> StepV {
        StepV {
            name: match self.name {
                Some(ref n) => Some(n@),
                None => None,
            },
            vars: self.vars@.map_values(|p: (String, Value)| (p.0@, p.1@)),
        }
    }
}

impl Clone for Step {
    fn clone(&self) -> (res: Self)
        ensures
            res@ == self@,
    {
        let name = match &self.name {
            Some(n) => Some(n.clone()),
            None => None,
        };
        let mut vars: Vec<(String, Value)> = Vec::new();
        let mut i: usize = 0;
        while i < self.vars.len()
            invariant
                i <= self.vars@.len(),
                vars@.len() == i,
                forall|j: int|
                    0 <= j < i ==> vars@[j].0@ == self.vars@[j].0@ && vars@[j].1@
                        == self.vars@[j].1@,
            decreases self.vars@.len() - i,
        {
            let entry = &self.vars[i];
            vars.push((entry.0.clone(), entry.1.clone()));
            i = i + 1;
        }
        let res = Step { name, vars };
        proof {
            assert(res@.vars =~= self@.vars);
        }
        res
    }
}

/// A recipe for one page: the base template's name plus the ordered steps.
#[derive(Debug)]
pub struct BuildProcedure {
    pub template: String,
    pub steps: Vec<Step>,
}

/// The mathematical shape of a `BuildProcedure`.
pub struct ProcV {
    pub template: Seq<char>,
    pub steps: Seq<StepV>,
}

impl View for BuildProcedure {
    type V = ProcV;

    open spec fn view(&self) -> ProcV {
        ProcV { template: self.template@, steps: self.steps@.map_values(|s: Step| s@) }
    }
}

impl Clone for BuildProcedure {
    fn clone(&self) -> (res: Self)
        ensures
            res@ == self@,
    {
        let mut steps: Vec<Step> = Vec::new();
        let mut i: usize = 0;
        while i < self.steps.len()
            invariant
                i <= self.steps@.len(),
                steps@.len() == i,
                forall|j: int| 0 <= j < i ==> steps@[j]@ == self.steps@[j]@,
            decreases self.steps@.len() - i,
        {
            steps.push(self.steps[i].clone());
            i = i + 1;
        }
        let res = BuildProcedure { template: self.template.clone(), steps };
        proof {
            assert(res@.steps =~= self@.steps);
        }
        res
    }
}

/// The step value a YAML node denotes.
fn value_from_yaml(v: &crate::yaml::YamlNode) -> (r: Result<Value, BuildProcedureLoadError>)
    ensures
        match r {
            Ok(val) => crate::yaml::value_of_yaml(*v) == Ok::<ValueV, crate::yaml::LoadKind>(
                val@,
            ),
            Err(e) => crate::yaml::value_of_yaml(*v) is Err && ((e
                is FormatError <==> crate::yaml::value_of_yaml(*v)->Err_0
                == crate::yaml::LoadKind::Format) && (e
                is UnexpectNoneVariableValue <==> crate::yaml::value_of_yaml(*v)->Err_0
                == crate::yaml::LoadKind::UnexpectedNone)),
        },
{
    match v {
        crate::yaml::YamlNode::Str(s) => Ok(Value::Text(s.clone())),
        crate::yaml::YamlNode::UInt(n) => Ok(Value::Int(*n)),
        crate::yaml::YamlNode::Null => Err(BuildProcedureLoadError::UnexpectNoneVariableValue),
        crate::yaml::YamlNode::Mapping(entries) => {
            let ty = match crate::yaml::lookup(entries, "type") {
                Some(crate::yaml::YamlNode::Str(ty)) => ty,
                _ => {
                    return Err(
                        BuildProcedureLoadError::FormatError(
                            ("step value has no type tag").to_owned(),
                        ),
                    );
                },
            };
            if crate::text::str_eq(ty.as_str(), "unixTimestamp") {
                match crate::yaml::lookup(entries, "value") {
                    Some(crate::yaml::YamlNode::UInt(n)) => Ok(Value::UnixTimestamp { value: *n }),
                    _ => Err(
                        BuildProcedureLoadError::FormatError(
                            ("timestamp value is missing").to_owned(),
                        ),
                    ),
                }
            } else if crate::text::str_eq(ty.as_str(), "md") {
                match crate::yaml::lookup(entries, "path") {
                    Some(crate::yaml::YamlNode::Str(p)) => Ok(Value::Md { path: p.clone() }),
                    _ => Err(
                        BuildProcedureLoadError::FormatError(("md path is missing").to_owned()),
                    ),
                }
            } else if crate::text::str_eq(ty.as_str(), "text") {
                match crate::yaml::lookup(entries, "path") {
                    Some(crate::yaml::YamlNode::Str(p)) => Ok(Value::TextFile { path: p.clone() }),
                    _ => Err(
                        BuildProcedureLoadError::FormatError(("text path is missing").to_owned()),
                    ),
                }
            } else if crate::text::str_eq(ty.as_str(), "index") {
                match (
                    crate::yaml::lookup(entries, "path"),
                    crate::yaml::lookup(entries, "itemTemplate"),
                ) {
                    (
                        Some(crate::yaml::YamlNode::Str(p)),
                        Some(crate::yaml::YamlNode::Str(t)),
                    ) => Ok(Value::Index { path: p.clone(), item_template: t.clone() }),
                    _ => Err(
                        BuildProcedureLoadError::FormatError(
                            ("index path or itemTemplate is missing").to_owned(),
                        ),
                    ),
                }
            } else {
                Err(BuildProcedureLoadError::FormatError(("unknown value type").to_owned()))
            }
        },
        _ => Err(BuildProcedureLoadError::FormatError(("unsupported step value").to_owned())),
    }
}

/// The step a YAML node denotes.
fn step_from_yaml(y: &crate::yaml::YamlNode) -> (r: Result<Step, BuildProcedureLoadError>)
    ensures
        match r {
            Ok(s) => crate::yaml::step_of_yaml(*y) == Ok::<StepV, crate::yaml::LoadKind>(s@),
            Err(e) => crate::yaml::step_of_yaml(*y) is Err && ((e
                is FormatError <==> crate::yaml::step_of_yaml(*y)->Err_0
                == crate::yaml::LoadKind::Format) && (e
                is UnexpectNoneVariableValue <==> crate::yaml::step_of_yaml(*y)->Err_0
                == crate::yaml::LoadKind::UnexpectedNone)),
        },
{
    let entries = match y {
        crate::yaml::YamlNode::Mapping(entries) => entries,
        _ => {
            return Err(BuildProcedureLoadError::FormatError(("a step must be a map").to_owned()));
        },
    };
    let ghost ev = entries@;
    let mut name: Option<String> = None;
    let mut vars: Vec<(String, Value)> = Vec::new();
    let mut j: usize = 0;
    proof {
        assert(vars@.map_values(|p: (String, Value)| (p.0@, p.1@)) =~= Seq::<
            (Seq<char>, ValueV),
        >::empty());
    }
    while j < entries.len()
        invariant
            y is Mapping,
            ev == entries@,
            crate::yaml::step_of_yaml(*y) == crate::yaml::step_fold(ev, 0, None, Seq::empty()),
            j <= ev.len(),
            crate::yaml::step_fold(ev, 0, None, Seq::empty()) == crate::yaml::step_fold(
                ev,
                j as int,
                match name {
                    Some(ref n) => Some(n@),
                    None => None,
                },
                vars@.map_values(|p: (String, Value)| (p.0@, p.1@)),
            ),
        decreases ev.len() - j,
    {
        let entry = &entries[j];
        if matches!(&entry.1, crate::yaml::YamlNode::Null) {
            if name.is_none() {
                name = Some(entry.0.clone());
            } else {
                return Err(BuildProcedureLoadError::UnexpectNoneVariableValue);
            }
        } else {
            let ghost vars_old = vars@.map_values(|p: (String, Value)| (p.0@, p.1@));
            match value_from_yaml(&entry.1) {
                Ok(val) => {
                    vars.push((entry.0.clone(), val));
                    proof {
                        assert(vars@.map_values(|p: (String, Value)| (p.0@, p.1@))
                            =~= vars_old.push((entry.0@, vars@.last().1@)));
                    }
                },
                Err(e) => {
                    return Err(e);
                },
            }
        }
        j = j + 1;
    }
    let s = Step { name, vars };
    Ok(s)
}

impl BuildProcedure {
    /// Parse one page-tree descriptor into a procedure: a mapping with a
    /// `template` string and a list of `steps`, each step a mapping whose
    /// single key without a value names the step.
    pub fn new(s: &str) -> (r: Result<BuildProcedure, BuildProcedureLoadError>)
        ensures
            match crate::yaml::yaml_doc_of(s@) {
                None => r matches Err(BuildProcedureLoadError::FormatError(_)),
                Some(y) => match r {
                    Ok(p) => crate::yaml::proc_of_yaml(y) == Ok::<ProcV, crate::yaml::LoadKind>(
                        p@,
                    ),
                    Err(e) => crate::yaml::proc_of_yaml(y) is Err && ((e
                        is FormatError <==> crate::yaml::proc_of_yaml(y)->Err_0
                        == crate::yaml::LoadKind::Format) && (e
                        is UnexpectNoneVariableValue <==> crate::yaml::proc_of_yaml(y)->Err_0
                        == crate::yaml::LoadKind::UnexpectedNone)),
                },
            },
    {
        let doc = match crate::yaml::parse_yaml(s) {
            Ok(doc) => doc,
            Err(msg) => {
                return Err(BuildProcedureLoadError::FormatError(msg));
            },
        };
        let entries = match &doc {
            crate::yaml::YamlNode::Mapping(entries) => entries,
            _ => {
                return Err(
                    BuildProcedureLoadError::FormatError(
                        ("a procedure must be a map").to_owned(),
                    ),
                );
            },
        };
        let template = match crate::yaml::lookup(entries, "template") {
            Some(crate::yaml::YamlNode::Str(t)) => t.clone(),
            _ => {
                return Err(
                    BuildProcedureLoadError::FormatError(
                        ("the template name is missing").to_owned(),
                    ),
                );
            },
        };
        let items = match crate::yaml::lookup(entries, "steps") {
            Some(crate::yaml::YamlNode::List(items)) => items,
            _ => {
                return Err(
                    BuildProcedureLoadError::FormatError(("the step list is missing").to_owned()),
                );
            },
        };
        let ghost iv = items@;
        let mut steps: Vec<Step> = Vec::new();
        let mut j: usize = 0;
        proof {
            assert(steps@.map_values(|st: Step| st@) =~= Seq::<StepV>::empty());
        }
        while j < items.len()
            invariant
                iv == items@,
                j <= iv.len(),
                crate::yaml::yaml_doc_of(s@) == Some(doc),
                crate::yaml::proc_of_yaml(doc) == (match crate::yaml::steps_fold(
                    iv,
                    0,
                    Seq::empty(),
                ) {
                    Err(k) => Err(k),
                    Ok(st) => Ok(ProcV { template: template@, steps: st }),
                }),
                crate::yaml::steps_fold(iv, 0, Seq::empty()) == crate::yaml::steps_fold(
                    iv,
                    j as int,
                    steps@.map_values(|st: Step| st@),
                ),
            decreases iv.len() - j,
        {
            match step_from_yaml(&items[j]) {
                Ok(st) => {
                    let ghost acc_old = steps@.map_values(|st: Step| st@);
                    steps.push(st);
                    proof {
                        assert(steps@.map_values(|st: Step| st@) =~= acc_old.push(
                            steps@.last()@,
                        ));
                    }
                },
                Err(e) => {
                    return Err(e);
                },
            }
            j = j + 1;
        }
        let p = BuildProcedure { template, steps };
        Ok(p)
    }

    /// Execute against the procedure's own named template.
    pub fn execute(&self, data: &crate::ir::IR) -> (r: Result<String, BuildProcedureBuildError>)
        ensures
            ({
                let spec_r = crate::model::exec_proc(
                    self@,
                    data@,
                    crate::model::MAX_INDEX_DEPTH as nat,
                );
                match r {
                    Ok(t) => spec_r is Ok && spec_r->Ok_0 == t@,
                    Err(e) => spec_r is Err && spec_r->Err_0 == crate::model::build_err_trace(e),
                }
            }),
    {
        proof {
            crate::ir::lemma_doc_texts(data.templates.as_map());
        }
        let template = match data.templates.get(self.template.as_str()) {
            None => {
                return Err(BuildProcedureBuildError::TemplateNotFound(self.template.clone()));
            },
            Some(t) => t.clone(),
        };
        self.execute_with_template_override(data, template)
    }

    /// Execute against an explicit starting document instead of the named
    /// template: index items render against the parent's item component.
    pub fn execute_with_template_override(
        &self,
        data: &crate::ir::IR,
        template: crate::document::FwHTML,
    ) -> (r: Result<String, BuildProcedureBuildError>)
        ensures
            ({
                let spec_r = crate::model::exec_with_template(
                    self@,
                    template@.text,
                    data@,
                    crate::model::MAX_INDEX_DEPTH as nat,
                );
                match r {
                    Ok(t) => spec_r is Ok && spec_r->Ok_0 == t@,
                    Err(e) => spec_r is Err && spec_r->Err_0 == crate::model::build_err_trace(e),
                }
            }),
    {
        self.execute_with_template_override_fuel(data, template, crate::model::MAX_INDEX_DEPTH)
    }

    pub(crate) fn execute_with_template_override_fuel(
        &self,
        data: &crate::ir::IR,
        template: crate::document::FwHTML,
        fuel: u64,
    ) -> (r: Result<String, BuildProcedureBuildError>)
        ensures
            ({
                let spec_r = crate::model::exec_with_template(
                    self@,
                    template@.text,
                    data@,
                    fuel as nat,
                );
                match r {
                    Ok(t) => spec_r is Ok && spec_r->Ok_0 == t@,
                    Err(e) => spec_r is Err && spec_r->Err_0 == crate::model::build_err_trace(e),
                }
            }),
        decreases fuel, 7int, 0int,
    {
        let ghost stepsv = self@.steps;
        let ghost irv = data@;
        let ghost tplv = template@.text;
        let mut vars: crate::strmap::StrMap<Value> = crate::strmap::StrMap::new();
        let mut doc = template;
        let mut i: usize = 0;
        proof {
            assert(crate::ir::binds_view(vars.as_map()) =~= Map::<Seq<char>, ValueV>::empty());
        }
        while i < self.steps.len()
            invariant
                stepsv == self@.steps,
                irv == data@,
                tplv == template@.text,
                i <= self.steps@.len(),
                crate::model::exec_steps(
                    stepsv,
                    0,
                    Map::empty(),
                    tplv,
                    irv,
                    fuel as nat,
                ) == crate::model::exec_steps(
                    stepsv,
                    i as int,
                    crate::ir::binds_view(vars.as_map()),
                    doc@.text,
                    irv,
                    fuel as nat,
                ),
            decreases self.steps@.len() - i,
        {
            let step = &self.steps[i];
            let ghost binds_before = crate::ir::binds_view(vars.as_map());
            let mut j: usize = 0;
            while j < step.vars.len()
                invariant
                    stepsv == self@.steps,
                    0 <= i < stepsv.len(),
                    step == &self.steps@[i as int],
                    j <= step.vars@.len(),
                    crate::ir::binds_view(vars.as_map()) == crate::model::merge_step(
                        binds_before,
                        stepsv[i as int].vars.take(j as int),
                    ),
                decreases step.vars@.len() - j,
            {
                let entry = &step.vars[j];
                let ghost pre_map = vars.as_map();
                vars.insert(entry.0.clone(), entry.1.clone());
                proof {
                    assert(stepsv[i as int].vars.take(j + 1).drop_last()
                        =~= stepsv[i as int].vars.take(j as int));
                    assert(stepsv[i as int].vars.take(j + 1).last() == (
                        entry.0@,
                        entry.1@,
                    ));
                    assert(crate::ir::binds_view(vars.as_map()) =~= crate::ir::binds_view(
                        pre_map,
                    ).insert(entry.0@, entry.1@));
                }
                j = j + 1;
            }
            proof {
                assert(stepsv[i as int].vars.take(step.vars@.len() as int)
                    =~= stepsv[i as int].vars);
            }
            let ghost doc_before = doc@.text;
            doc = match doc.resolved_fuel(
                &data.components,
                &vars,
                data,
                fuel,
                crate::model::MAX_RESOLVE_PASSES,
            ) {
                Err(err) => {
                    proof {
                        assert(crate::model::exec_steps(
                            stepsv,
                            i as int,
                            binds_before,
                            doc_before,
                            irv,
                            fuel as nat,
                        ) == Err::<Seq<char>, Seq<crate::model::ErrStep>>(seq![
                            crate::model::ErrStep::TemplateResolve,
                        ] + crate::model::resolve_err_trace(err)));
                    }
                    return Err(BuildProcedureBuildError::TemplateResolveError(err));
                },
                Ok(t) => t,
            };
            proof {
                assert(crate::model::exec_steps(
                    stepsv,
                    i as int,
                    binds_before,
                    doc_before,
                    irv,
                    fuel as nat,
                ) == crate::model::exec_steps(
                    stepsv,
                    i + 1,
                    crate::ir::binds_view(vars.as_map()),
                    doc@.text,
                    irv,
                    fuel as nat,
                ));
            }
            i = i + 1;
        }
        Ok(doc.output())
    }
}

/// Why parsing a procedure descriptor failed.
#[derive(Debug)]
pub enum BuildProcedureLoadError {
    /// The text is not YAML of the expected shape; the payload is a short
    /// description.
    FormatError(String),
    /// A key other than the step's single display name maps to no value.
    UnexpectNoneVariableValue,
}

/// Why executing a procedure failed.
#[derive(Debug)]
pub enum BuildProcedureBuildError {
    /// Which template was not found.
    TemplateNotFound(String),
    /// Which build step couldn't resolve which variable.
    CantResolveVars(Option<String>, String),
    TemplateResolveError(crate::document::FwHTMLResolveError),
}

} // verus!
