//! YAML access for procedure descriptors and the site configuration. The
//! outside crate turns text into a value tree of plain data; the schema that
//! the tree must fit is this library's own logic and is verified.

use vstd::prelude::*;
use serde_yml::Value as SerdeYamlValue;
use crate::procedure::StepV;
use crate::value::ValueV;

verus! {

/// A YAML value tree of plain data. Floats, numbers outside the unsigned
/// 64-bit range and tagged values have no node here: text holding them fails
/// to parse, as the schemas below would reject them anyway.
#[derive(Debug)]
pub enum YamlNode {
    Null,
    Bool(bool),
    UInt(u64),
    Str(String),
    List(Vec<YamlNode>),
    Mapping(Vec<(String, YamlNode)>),
}

/// The value tree the YAML parser gives the text, or nothing when the text
/// is not well-formed YAML of this shape; a function of the text alone.
pub uninterp spec fn yaml_doc_of(s: Seq<char>) -> Option<YamlNode>;

/// Relies on serde_yml::from_str for `Value`: parses YAML text into its
/// value tree, deterministically in the text.
#[verifier::external_body]
pub(crate) fn parse_yaml(s: &str) -> (r: Result<YamlNode, String>)
    ensures
        match r {
            Ok(n) => yaml_doc_of(s@) == Some(n),
            Err(_) => yaml_doc_of(s@) is None,
        },
{
    match serde_yml::from_str::<serde_yml::Value>(s) {
        Ok(v) => match yaml_to_node(v) {
            Some(n) => Ok(n),
            None => Err(("unsupported YAML shape").to_string()),
        },
        Err(e) => Err(e.to_string()),
    }
}

/// The outside parser's value tree, declared so that the converter below can
/// take it; opaque to this library.
#[verifier::external_type_specification]
#[verifier::external_body]
pub struct ExYamlValue(SerdeYamlValue);

/// Relies on serde_yml::Value: converts the parsed tree to plain data, one
/// arm per variant; numbers that are not unsigned 64-bit integers and tagged
/// values have no plain form here.
#[verifier::external_body]
fn yaml_to_node(v: serde_yml::Value) -> Option<YamlNode> {
    match v {
        serde_yml::Value::Null => Some(YamlNode::Null),
        serde_yml::Value::Bool(b) => Some(YamlNode::Bool(b)),
        serde_yml::Value::Number(n) => n.as_u64().map(YamlNode::UInt),
        serde_yml::Value::String(s) => Some(YamlNode::Str(s)),
        serde_yml::Value::Sequence(xs) => xs.into_iter().map(yaml_to_node).collect::<Option<
            Vec<YamlNode>,
        >>().map(YamlNode::List),
        serde_yml::Value::Mapping(m) => m.into_iter().map(
            |(k, v)| yaml_to_node(v).map(|n| (k, n)),
        ).collect::<Option<Vec<(String, YamlNode)>>>().map(YamlNode::Mapping),
        serde_yml::Value::Tagged(_) => None,
    }
}

/// How a descriptor failed to fit the schema.
pub enum LoadKind {
    /// Not the expected shape.
    Format,
    /// A key other than the step name maps to no value.
    UnexpectedNone,
}

/// The value under key `k`, later entries shadowing earlier ones.
pub open spec fn ylookup(entries: Seq<(String, YamlNode)>, k: Seq<char>) -> Option<YamlNode>
    decreases entries.len(),
{
    if entries.len() == 0 {
        None
    } else if entries.last().0@ == k {
        Some(entries.last().1)
    } else {
        ylookup(entries.drop_last(), k)
    }
}

/// The step value a YAML node denotes: a string is literal text, an unsigned
/// integer a number, and a mapping is tagged by its `type` key with
/// type-specific fields.
pub open spec fn value_of_yaml(v: YamlNode) -> Result<ValueV, LoadKind> {
    match v {
        YamlNode::Str(s) => Ok(ValueV::Text(s@)),
        YamlNode::UInt(n) => Ok(ValueV::Int(n)),
        YamlNode::Null => Err(LoadKind::UnexpectedNone),
        YamlNode::Mapping(entries) => match ylookup(entries@, "type"@) {
            Some(YamlNode::Str(ty)) => if ty@ == "unixTimestamp"@ {
                match ylookup(entries@, "value"@) {
                    Some(YamlNode::UInt(n)) => Ok(ValueV::UnixTimestamp(n)),
                    _ => Err(LoadKind::Format),
                }
            } else if ty@ == "md"@ {
                match ylookup(entries@, "path"@) {
                    Some(YamlNode::Str(p)) => Ok(ValueV::Md(p@)),
                    _ => Err(LoadKind::Format),
                }
            } else if ty@ == "text"@ {
                match ylookup(entries@, "path"@) {
                    Some(YamlNode::Str(p)) => Ok(ValueV::TextFile(p@)),
                    _ => Err(LoadKind::Format),
                }
            } else if ty@ == "index"@ {
                match (ylookup(entries@, "path"@), ylookup(entries@, "itemTemplate"@)) {
                    (Some(YamlNode::Str(p)), Some(YamlNode::Str(t))) => Ok(
                        ValueV::Index(p@, t@),
                    ),
                    _ => Err(LoadKind::Format),
                }
            } else {
                Err(LoadKind::Format)
            },
            _ => Err(LoadKind::Format),
        },
        _ => Err(LoadKind::Format),
    }
}

/// One step read from its entries in order: the first key mapped to no value
/// names the step, a second such key is an error, every other entry binds a
/// variable.
pub open spec fn step_fold(
    entries: Seq<(String, YamlNode)>,
    j: int,
    name: Option<Seq<char>>,
    vars: Seq<(Seq<char>, ValueV)>,
) -> Result<StepV, LoadKind>
    decreases entries.len() - j,
{
    if j < 0 || j >= entries.len() {
        Ok(StepV { name, vars })
    } else {
        let v = entries[j].1;
        if v is Null {
            if name is None {
                step_fold(entries, j + 1, Some(entries[j].0@), vars)
            } else {
                Err(LoadKind::UnexpectedNone)
            }
        } else {
            match value_of_yaml(v) {
                Err(e) => Err(e),
                Ok(val) => step_fold(entries, j + 1, name, vars.push((entries[j].0@, val))),
            }
        }
    }
}

/// The step a YAML node denotes: it must be a mapping.
pub open spec fn step_of_yaml(y: YamlNode) -> Result<StepV, LoadKind> {
    match y {
        YamlNode::Mapping(entries) => step_fold(entries@, 0, None, Seq::empty()),
        _ => Err(LoadKind::Format),
    }
}

pub open spec fn steps_fold(items: Seq<YamlNode>, j: int, acc: Seq<StepV>) -> Result<
    Seq<StepV>,
    LoadKind,
>
    decreases items.len() - j,
{
    if j < 0 || j >= items.len() {
        Ok(acc)
    } else {
        match step_of_yaml(items[j]) {
            Err(e) => Err(e),
            Ok(s) => steps_fold(items, j + 1, acc.push(s)),
        }
    }
}

/// The procedure a YAML document denotes: a mapping whose `template` key is
/// a string and whose `steps` key is a list of steps.
pub open spec fn proc_of_yaml(y: YamlNode) -> Result<crate::procedure::ProcV, LoadKind> {
    match y {
        YamlNode::Mapping(entries) => match (
            ylookup(entries@, "template"@),
            ylookup(entries@, "steps"@),
        ) {
            (Some(YamlNode::Str(t)), Some(YamlNode::List(items))) => match steps_fold(
                items@,
                0,
                Seq::empty(),
            ) {
                Err(e) => Err(e),
                Ok(steps) => Ok(crate::procedure::ProcV { template: t@, steps }),
            },
            _ => Err(LoadKind::Format),
        },
        _ => Err(LoadKind::Format),
    }
}

/// The site URL a configuration document carries, when it is a mapping whose
/// `url` key is a string.
pub open spec fn config_url_of_yaml(y: YamlNode) -> Option<Seq<char>> {
    match y {
        YamlNode::Mapping(entries) => match ylookup(entries@, "url"@) {
            Some(YamlNode::Str(u)) => Some(u@),
            _ => None,
        },
        _ => None,
    }
}

/// Look a key up among the entries, later entries shadowing earlier ones.
pub(crate) fn lookup<'a>(entries: &'a Vec<(String, YamlNode)>, k: &str) -> (r: Option<
    &'a YamlNode,
>)
    ensures
        match r {
            Some(n) => ylookup(entries@, k@) == Some(*n),
            None => ylookup(entries@, k@) is None,
        },
{
    let mut i = entries.len();
    proof {
        assert(entries@.take(entries@.len() as int) =~= entries@);
    }
    while i > 0
        invariant
            i <= entries@.len(),
            ylookup(entries@, k@) == ylookup(entries@.take(i as int), k@),
        decreases i,
    {
        i = i - 1;
        proof {
            assert(entries@.take(i + 1).last() == entries@[i as int]);
            assert(entries@.take(i + 1).drop_last() =~= entries@.take(i as int));
        }
        if crate::text::str_eq(entries[i].0.as_str(), k) {
            return Some(&entries[i].1);
        }
    }
    None
}

} // verus!
