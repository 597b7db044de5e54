//! The intermediate representation: the read-only context each page's build
//! procedure runs against.

use vstd::prelude::*;
use crate::document::{DocV, FwHTML, FwHTMLError};
use crate::fs_tree::ParsedFsTree;
use crate::model::IrV;
use crate::strmap::StrMap;
use crate::value::{Value, ValueV};

verus! {

/// The component and template texts a name map holds.
pub open spec fn doc_texts(m: Map<Seq<char>, FwHTML>) -> Map<Seq<char>, Seq<char>> {
    m.map_values(|d: FwHTML| d@.text)
}

/// The values a binding map holds, as their mathematical shapes.
pub open spec fn binds_view(m: Map<Seq<char>, Value>) -> Map<Seq<char>, ValueV> {
    m.map_values(|v: Value| v@)
}

pub proof fn lemma_doc_texts(m: Map<Seq<char>, FwHTML>)
    ensures
        doc_texts(m).dom() =~= m.dom(),
        forall|k: Seq<char>| #[trigger]
            m.contains_key(k) ==> doc_texts(m).contains_key(k) && doc_texts(m)[k] == m[k]@.text,
{
}

pub proof fn lemma_binds_view(m: Map<Seq<char>, Value>)
    ensures
        binds_view(m).dom() =~= m.dom(),
        forall|k: Seq<char>| #[trigger]
            m.contains_key(k) ==> binds_view(m).contains_key(k) && binds_view(m)[k] == m[k]@,
{
}

/// The map a list of name/text pairs denotes: later entries win.
pub open spec fn texts_map_of(s: Seq<(String, String)>) -> Map<Seq<char>, Seq<char>>
    decreases s.len(),
{
    if s.len() == 0 {
        Map::empty()
    } else {
        texts_map_of(s.drop_last()).insert(s.last().0@, s.last().1@)
    }
}

/// Intermediate representation of the source directory.
pub struct IR {
    pub config: WebsiteConf,
    pub templates: StrMap<FwHTML>,
    pub components: StrMap<FwHTML>,
    pub layout_css: String,
    pub style_css: String,
    pub pages: ParsedFsTree,
    pub static_assets: Vec<(String, Vec<u8>)>,
}

impl View for IR {
    type V = IrV;

    open spec fn view(&self) -> IrV {
        IrV {
            templates: doc_texts(self.templates.as_map()),
            components: doc_texts(self.components.as_map()),
            pages: self.pages,
        }
    }
}

/// Site-wide configuration.
#[derive(Debug)]
pub struct WebsiteConf {
    pub url: String,
}

/// Why the source files do not form a valid site.
#[derive(Debug)]
pub enum SourceFormatError {
    /// Name of the file that has invalid yaml, and a short description.
    InvalidYaml(String, String),
    /// File name, err.
    InvalidTemplateHTML(String, FwHTMLError),
    /// website data is not in expected format.
    BadWebsiteYaml,
    InvalidCSS(CssParseError),
    InvalidFsTree(crate::fs_tree::ParsedFsTreeParseError),
}

/// Where and how a stylesheet failed to parse.
#[derive(Debug)]
pub struct CssParseError {
    pub filename: String,
    pub error_class: String,
}

impl IR {
    /// Build the read-only context from loaded source files: parse the
    /// configuration, wrap templates and components, and parse the page
    /// tree.
    pub fn new(data: crate::source::SourceDir) -> (r: Result<Self, SourceFormatError>)
        ensures
            match r {
                Ok(ir) => {
                    &&& crate::yaml::yaml_doc_of(data.website_yml@) matches Some(y)
                        && crate::yaml::config_url_of_yaml(y) == Some(ir.config.url@)
                    &&& ir@.templates == texts_map_of(data.templates@)
                    &&& forall|i: int|
                        0 <= i < data.templates@.len() ==> crate::document::is_template_text(
                            #[trigger] data.templates@[i].1@,
                        )
                    &&& ir@.components == texts_map_of(data.components@)
                    &&& crate::fs_tree::parse_err(data.pages) is None
                        && crate::fs_tree::parse_rel(data.pages, ir.pages)
                    &&& ir.layout_css@ == data.layout_css@
                    &&& ir.style_css@ == data.style_css@
                    &&& ir.static_assets == data.static_files
                },
                Err(e) => match e {
                    SourceFormatError::InvalidYaml(f, _) => f@ == "website.yml"@ && (match crate::yaml::yaml_doc_of(
                        data.website_yml@,
                    ) {
                        None => true,
                        Some(y) => crate::yaml::config_url_of_yaml(y) is None,
                    }),
                    SourceFormatError::InvalidTemplateHTML(k, _) => exists|i: int|
                        0 <= i < data.templates@.len() && data.templates@[i].0@ == k@
                            && !crate::document::is_template_text(
                            #[trigger] data.templates@[i].1@,
                        ),
                    SourceFormatError::InvalidFsTree(pe) => pe matches crate::fs_tree::ParsedFsTreeParseError::InvalidBuildProcedure(
                        p,
                        le,
                    ) && crate::fs_tree::parse_err(data.pages) matches Some(fe) && fe.0 == p@ && ((
                    le is FormatError <==> fe.1 == crate::yaml::LoadKind::Format) && (le
                        is UnexpectNoneVariableValue <==> fe.1
                        == crate::yaml::LoadKind::UnexpectedNone)),
                    _ => false,
                },
            },
    {
        let config = match Self::load_config(data.website_yml.as_str()) {
            Ok(c) => c,
            Err(e) => {
                return Err(e);
            },
        };
        let templates = match Self::load_templates(data.templates) {
            Ok(t) => t,
            Err(e) => {
                return Err(e);
            },
        };
        let components = match Self::load_components(data.components) {
            Ok(c) => c,
            Err(e) => {
                return Err(e);
            },
        };
        let pages = match data.pages.parse() {
            Ok(tree) => tree,
            Err(err) => {
                return Err(SourceFormatError::InvalidFsTree(err));
            },
        };
        Ok(
            IR {
                config,
                templates,
                components,
                layout_css: data.layout_css,
                style_css: data.style_css,
                pages,
                static_assets: data.static_files,
            },
        )
    }

    /// Parse the site configuration: a mapping whose `url` key is a string.
    pub fn load_config(data: &str) -> (r: Result<WebsiteConf, SourceFormatError>)
        ensures
            match crate::yaml::yaml_doc_of(data@) {
                None => r matches Err(SourceFormatError::InvalidYaml(f, _)) && f@
                    == "website.yml"@,
                Some(y) => match crate::yaml::config_url_of_yaml(y) {
                    Some(u) => r matches Ok(c) && c.url@ == u,
                    None => r matches Err(SourceFormatError::InvalidYaml(f, _)) && f@
                        == "website.yml"@,
                },
            },
    {
        let doc = match crate::yaml::parse_yaml(data) {
            Ok(doc) => doc,
            Err(msg) => {
                return Err(SourceFormatError::InvalidYaml(("website.yml").to_owned(), msg));
            },
        };
        match &doc {
            crate::yaml::YamlNode::Mapping(entries) => match crate::yaml::lookup(entries, "url") {
                Some(crate::yaml::YamlNode::Str(u)) => Ok(WebsiteConf { url: u.clone() }),
                _ => Err(
                    SourceFormatError::InvalidYaml(
                        ("website.yml").to_owned(),
                        ("the url entry is missing").to_owned(),
                    ),
                ),
            },
            _ => Err(
                SourceFormatError::InvalidYaml(
                    ("website.yml").to_owned(),
                    ("not a configuration mapping").to_owned(),
                ),
            ),
        }
    }

    /// Wrap each template text, requiring the document-type marker.
    pub fn load_templates(data: Vec<(String, String)>) -> (r: Result<
        StrMap<FwHTML>,
        SourceFormatError,
    >)
        ensures
            match r {
                Ok(m) => doc_texts(m.as_map()) == texts_map_of(data@) && forall|i: int|
                    0 <= i < data@.len() ==> crate::document::is_template_text(
                        #[trigger] data@[i].1@,
                    ),
                Err(e) => e matches SourceFormatError::InvalidTemplateHTML(k, inner) && (exists|
                    i: int,
                |
                    0 <= i < data@.len() && data@[i].0@ == k@ && !crate::document::is_template_text(
                        #[trigger] data@[i].1@,
                    )) && inner matches FwHTMLError::NotATemplate,
            },
    {
        let mut m: StrMap<FwHTML> = StrMap::new();
        let mut i: usize = 0;
        while i < data.len()
            invariant
                i <= data@.len(),
                doc_texts(m.as_map()) == texts_map_of(data@.take(i as int)),
                forall|j: int|
                    0 <= j < i ==> crate::document::is_template_text(#[trigger] data@[j].1@),
            decreases data@.len() - i,
        {
            let ghost prev = m.as_map();
            let entry = &data[i];
            match FwHTML::template(entry.1.clone()) {
                Ok(d) => {
                    let ghost dv = d@;
                    m.insert(entry.0.clone(), d);
                    proof {
                        assert(data@.take(i + 1).drop_last() =~= data@.take(i as int));
                        assert(doc_texts(m.as_map()) =~= texts_map_of(data@.take(i + 1)));
                    }
                },
                Err(e) => {
                    return Err(SourceFormatError::InvalidTemplateHTML(entry.0.clone(), e));
                },
            }
            i = i + 1;
        }
        proof {
            assert(data@.take(data@.len() as int) =~= data@);
        }
        Ok(m)
    }

    /// Wrap each component text.
    pub fn load_components(data: Vec<(String, String)>) -> (r: Result<
        StrMap<FwHTML>,
        SourceFormatError,
    >)
        ensures
            match r {
                Ok(m) => doc_texts(m.as_map()) == texts_map_of(data@),
                Err(_) => false,
            },
    {
        let mut m: StrMap<FwHTML> = StrMap::new();
        let mut i: usize = 0;
        while i < data.len()
            invariant
                i <= data@.len(),
                doc_texts(m.as_map()) == texts_map_of(data@.take(i as int)),
            decreases data@.len() - i,
        {
            let entry = &data[i];
            match FwHTML::new(entry.1.clone()) {
                Ok(d) => {
                    m.insert(entry.0.clone(), d);
                    proof {
                        assert(data@.take(i + 1).drop_last() =~= data@.take(i as int));
                        assert(doc_texts(m.as_map()) =~= texts_map_of(data@.take(i + 1)));
                    }
                },
                Err(_) => {
                    proof {
                        assert(false);
                    }
                },
            }
            i = i + 1;
        }
        proof {
            assert(data@.take(data@.len() as int) =~= data@);
        }
        Ok(m)
    }
}

} // verus!
