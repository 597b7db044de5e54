use fwsite::document::{FwHTML, FwHTMLError, FwHTMLResolveError};
use fwsite::fs_tree::{ParsedFsEntry, ParsedFsTree};
use fwsite::ir::{WebsiteConf, IR};
use fwsite::procedure::{BuildProcedure, BuildProcedureBuildError, Step};
use fwsite::strmap::StrMap;
use fwsite::value::{Value, ValueGenerationError};

fn empty_ir() -> IR {
    IR {
        config: WebsiteConf { url: String::from("example.org") },
        templates: StrMap::new(),
        components: StrMap::new(),
        layout_css: String::new(),
        style_css: String::new(),
        pages: ParsedFsTree {
            name: String::from("pages"),
            content: ParsedFsEntry::Directory(Vec::new()),
            created: None,
        },
        static_assets: Vec::new(),
    }
}

fn ir_with_pages(children: Vec<ParsedFsTree>) -> IR {
    let mut ir = empty_ir();
    ir.pages = ParsedFsTree {
        name: String::from("pages"),
        content: ParsedFsEntry::Directory(children),
        created: None,
    };
    ir
}

fn step(name: Option<&str>, vars: Vec<(&str, Value)>) -> Step {
    Step {
        name: name.map(String::from),
        vars: vars.into_iter().map(|(k, v)| (String::from(k), v)).collect(),
    }
}

fn blog_child(name: &str, title: &str, created: Option<u64>) -> ParsedFsTree {
    ParsedFsTree {
        name: String::from(name),
        content: ParsedFsEntry::BuildProcedure(BuildProcedure {
            template: String::from("unused.html"),
            steps: vec![step(None, vec![("title", Value::Text(String::from(title)))])],
        }),
        created,
    }
}

#[test]
fn text_and_int_generate_literally() {
    let ir = empty_ir();
    assert_eq!(Value::Text(String::from("hi")).generate(&ir).unwrap(), "hi");
    assert_eq!(Value::Int(42).generate(&ir).unwrap(), "42");
    assert_eq!(Value::Int(0).generate(&ir).unwrap(), "0");
    assert_eq!(Value::Int(18446744073709551615).generate(&ir).unwrap(), "18446744073709551615");
}

#[test]
fn timestamp_renders_time_element() {
    let ir = empty_ir();
    let out = Value::UnixTimestamp { value: 1704204000 }.generate(&ir).unwrap();
    assert_eq!(out, "<time datetime=\"2024-01-02T14:00:00+00:00\">2024-01-02</time>");
}

#[test]
fn timestamp_out_of_reach_fails() {
    let ir = empty_ir();
    let r = Value::UnixTimestamp { value: 9000000000000 }.generate(&ir);
    assert!(matches!(r, Err(ValueGenerationError::UnixTimestampOutOfReach)));
}

#[test]
fn markdown_renders_through_page_tree() {
    let ir = ir_with_pages(vec![ParsedFsTree {
        name: String::from("notes.md"),
        content: ParsedFsEntry::TextFile(String::from("hello *world*")),
        created: None,
    }]);
    let out = Value::Md { path: String::from("notes.md") }.generate(&ir).unwrap();
    assert_eq!(out, "<p>hello <em>world</em></p>\n");
}

#[test]
fn text_file_is_inserted_verbatim() {
    let ir = ir_with_pages(vec![ParsedFsTree {
        name: String::from("raw.txt"),
        content: ParsedFsEntry::TextFile(String::from("as *is*")),
        created: None,
    }]);
    let out = Value::TextFile { path: String::from("raw.txt") }.generate(&ir).unwrap();
    assert_eq!(out, "as *is*");
}

#[test]
fn missing_file_fails_generation() {
    let ir = empty_ir();
    let r = Value::Md { path: String::from("absent.md") }.generate(&ir);
    match r {
        Err(ValueGenerationError::FileDoesntExist(p)) => assert_eq!(p, "absent.md"),
        other => panic!("unexpected result: {:?}", other),
    }
}

#[test]
fn index_needs_a_directory() {
    let ir = empty_ir();
    let r = Value::Index {
        path: String::from("blog"),
        item_template: String::from("item"),
    }
        .generate(&ir);
    match r {
        Err(ValueGenerationError::NoDirAtIndexPath(p)) => assert_eq!(p, "blog"),
        other => panic!("unexpected result: {:?}", other),
    }
}

fn blog_ir(children: Vec<ParsedFsTree>) -> IR {
    let mut ir = ir_with_pages(vec![ParsedFsTree {
        name: String::from("blog"),
        content: ParsedFsEntry::Directory(children),
        created: None,
    }]);
    let item = FwHTML::new(String::from("{{ title }}")).unwrap();
    ir.components.insert(String::from("item"), item);
    ir
}

fn blog_index() -> Value {
    Value::Index { path: String::from("blog"), item_template: String::from("item") }
}

#[test]
fn index_orders_newest_first() {
    let ir = blog_ir(vec![
        blog_child("a.yml", "A", Some(100)),
        blog_child("b.yml", "B", Some(300)),
        blog_child("c.yml", "C", Some(200)),
    ]);
    let out = blog_index().generate(&ir).unwrap();
    assert_eq!(out, "\nB\nC\nA");
}

#[test]
fn index_skips_its_own_descriptor() {
    let ir = blog_ir(vec![
        blog_child("a.yml", "A", Some(100)),
        blog_child("index.yml", "SELF", Some(999)),
        blog_child("b.yml", "B", Some(300)),
    ]);
    let out = blog_index().generate(&ir).unwrap();
    assert_eq!(out, "\nB\nA");
}

#[test]
fn index_requires_creation_timestamps() {
    let ir = blog_ir(vec![
        blog_child("a.yml", "A", Some(100)),
        blog_child("b.yml", "B", None),
    ]);
    let r = blog_index().generate(&ir);
    match r {
        Err(ValueGenerationError::IndexGitTimestampMissing(name)) => assert_eq!(name, "b.yml"),
        other => panic!("unexpected result: {:?}", other),
    }
}

#[test]
fn index_requires_its_item_component() {
    let mut ir = blog_ir(vec![blog_child("a.yml", "A", Some(100))]);
    ir.components = StrMap::new();
    let r = blog_index().generate(&ir);
    match r {
        Err(ValueGenerationError::MissingComponent(name)) => assert_eq!(name, "item"),
        other => panic!("unexpected result: {:?}", other),
    }
}

#[test]
fn index_injects_the_link_variable() {
    let mut ir = blog_ir(vec![blog_child("a-post.yml", "A", Some(100))]);
    let item = FwHTML::new(String::from("<a href=\"{{ link }}\">{{ title }}</a>")).unwrap();
    ir.components.insert(String::from("item"), item);
    let out = blog_index().generate(&ir).unwrap();
    assert_eq!(out, "\n<a href=\"a-post.html\">A</a>");
}

#[test]
fn resolution_is_idempotent_at_fixed_point() {
    let ir = empty_ir();
    let comps: StrMap<FwHTML> = StrMap::new();
    let vars: StrMap<Value> = StrMap::new();
    let doc = FwHTML::new(String::from("<p>{{ unbound }}</p>")).unwrap();
    let once = doc.resolved(&comps, &vars, &ir).unwrap();
    assert_eq!(once.output(), "<p>{{ unbound }}</p>");
    let twice = once.resolved(&comps, &vars, &ir).unwrap();
    assert_eq!(twice.output(), once.output());
}

#[test]
fn unknown_component_fails_resolution() {
    let ir = empty_ir();
    let comps: StrMap<FwHTML> = StrMap::new();
    let vars: StrMap<Value> = StrMap::new();
    let doc = FwHTML::new(String::from("{{ components/nav }}")).unwrap();
    let r = doc.resolved(&comps, &vars, &ir);
    match r {
        Err(FwHTMLResolveError::MissingComponent(name)) => assert_eq!(name, "nav"),
        other => panic!("unexpected result: {:?}", other),
    }
}

#[test]
fn nested_components_expand_to_a_fixed_point() {
    let ir = empty_ir();
    let mut comps: StrMap<FwHTML> = StrMap::new();
    comps.insert(
        String::from("outer"),
        FwHTML::new(String::from("A{{ components/inner }}")).unwrap(),
    );
    comps.insert(String::from("inner"), FwHTML::new(String::from("B")).unwrap());
    let vars: StrMap<Value> = StrMap::new();
    let doc = FwHTML::new(String::from("{{ components/outer }}C")).unwrap();
    let out = doc.resolved(&comps, &vars, &ir).unwrap();
    assert_eq!(out.output(), "ABC");
}

#[test]
fn cyclic_component_is_reported() {
    let ir = empty_ir();
    let mut comps: StrMap<FwHTML> = StrMap::new();
    comps.insert(
        String::from("loop"),
        FwHTML::new(String::from("{{ components/loop }}")).unwrap(),
    );
    let vars: StrMap<Value> = StrMap::new();
    let doc = FwHTML::new(String::from("{{ components/loop }}")).unwrap();
    let r = doc.resolved(&comps, &vars, &ir);
    assert!(matches!(r, Err(FwHTMLResolveError::CycleDetected)));
}

#[test]
fn later_step_shadows_earlier_binding() {
    let mut ir = empty_ir();
    ir.templates.insert(
        String::from("base.html"),
        FwHTML::template(String::from("<!DOCTYPE html>{{ wrap }}")).unwrap(),
    );
    let procedure = BuildProcedure {
        template: String::from("base.html"),
        steps: vec![
            step(Some("first"), vec![("x", Value::Text(String::from("first")))]),
            step(
                Some("second"),
                vec![
                    ("x", Value::Text(String::from("second"))),
                    ("wrap", Value::Text(String::from("{{ x }}"))),
                ],
            ),
        ],
    };
    let out = procedure.execute(&ir).unwrap();
    assert_eq!(out, "<!DOCTYPE html>second");
}

#[test]
fn early_binding_survives_for_late_placeholders() {
    let mut ir = empty_ir();
    ir.templates.insert(
        String::from("base.html"),
        FwHTML::template(String::from("<!DOCTYPE html>{{ wrap }}")).unwrap(),
    );
    let procedure = BuildProcedure {
        template: String::from("base.html"),
        steps: vec![
            step(None, vec![("inner", Value::Text(String::from("kept")))]),
            step(None, vec![("wrap", Value::Text(String::from("[{{ inner }}]")))]),
        ],
    };
    let out = procedure.execute(&ir).unwrap();
    assert_eq!(out, "<!DOCTYPE html>[kept]");
}

#[test]
fn missing_template_fails_execution() {
    let ir = empty_ir();
    let procedure = BuildProcedure { template: String::from("gone.html"), steps: Vec::new() };
    let r = procedure.execute(&ir);
    match r {
        Err(BuildProcedureBuildError::TemplateNotFound(name)) => assert_eq!(name, "gone.html"),
        other => panic!("unexpected result: {:?}", other),
    }
}

#[test]
fn variable_generation_error_names_the_variable() {
    let mut ir = empty_ir();
    ir.templates.insert(
        String::from("base.html"),
        FwHTML::template(String::from("<!DOCTYPE html>{{ body }}")).unwrap(),
    );
    let procedure = BuildProcedure {
        template: String::from("base.html"),
        steps: vec![step(None, vec![("body", Value::Md { path: String::from("gone.md") })])],
    };
    let r = procedure.execute(&ir);
    match r {
        Err(BuildProcedureBuildError::TemplateResolveError(FwHTMLResolveError::VariableError(
            name,
            inner,
        ))) => {
            assert_eq!(name, "body");
            assert!(matches!(*inner, ValueGenerationError::FileDoesntExist(_)));
        },
        other => panic!("unexpected result: {:?}", other),
    }
}

#[test]
fn template_requires_doctype_marker() {
    let r = FwHTML::template(String::from("<html></html>"));
    assert!(matches!(r, Err(FwHTMLError::NotATemplate)));
    assert!(FwHTML::template(String::from("<!DOCTYPE html><html></html>")).is_ok());
}

#[test]
fn scanners_collect_referenced_names() {
    let vars = fwsite::document::used_variables(
        "{{ title }} and {{ body }} and {{ title }} but {{ components/nav }}",
    );
    assert_eq!(vars, vec![String::from("title"), String::from("body")]);
    let comps = fwsite::document::used_components("{{ components/nav }}{{ components/nav }}");
    assert_eq!(comps, vec![String::from("nav")]);
    assert_eq!(fwsite::document::used_variables("{{ notclosed }"), Vec::<String>::new());
}

#[test]
fn failing_index_item_names_the_child() {
    let mut ir = blog_ir(vec![ParsedFsTree {
        name: String::from("a.yml"),
        content: ParsedFsEntry::BuildProcedure(BuildProcedure {
            template: String::from("unused.html"),
            steps: vec![step(None, vec![("title", Value::Md { path: String::from("gone.md") })])],
        }),
        created: Some(100),
    }]);
    let item = FwHTML::new(String::from("{{ title }}")).unwrap();
    ir.components.insert(String::from("item"), item);
    let r = blog_index().generate(&ir);
    match r {
        Err(ValueGenerationError::CantBuildIndexItem(name, inner)) => {
            assert_eq!(name, "a.yml");
            assert!(matches!(inner, BuildProcedureBuildError::TemplateResolveError(_)));
        },
        other => panic!("unexpected result: {:?}", other),
    }
}

#[test]
fn self_indexing_trips_the_depth_guard() {
    let mut ir = blog_ir(vec![ParsedFsTree {
        name: String::from("a.yml"),
        content: ParsedFsEntry::BuildProcedure(BuildProcedure {
            template: String::from("unused.html"),
            steps: vec![step(
                None,
                vec![(
                    "feed",
                    Value::Index {
                        path: String::from("blog"),
                        item_template: String::from("item"),
                    },
                )],
            )],
        }),
        created: Some(100),
    }]);
    let item = FwHTML::new(String::from("{{ feed }}")).unwrap();
    ir.components.insert(String::from("item"), item);
    let r = blog_index().generate(&ir);
    assert!(matches!(r, Err(ValueGenerationError::CantBuildIndexItem(_, _))));
}

#[test]
fn unreferenced_bindings_are_never_evaluated() {
    let ir = empty_ir();
    let comps: StrMap<FwHTML> = StrMap::new();
    let mut vars: StrMap<Value> = StrMap::new();
    vars.insert(String::from("broken"), Value::Md { path: String::from("gone.md") });
    let doc = FwHTML::new(String::from("<p>fine</p>")).unwrap();
    let out = doc.resolved(&comps, &vars, &ir).unwrap();
    assert_eq!(out.output(), "<p>fine</p>");
}
