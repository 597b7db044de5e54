use fwsite::fs_tree::{FsChild, FsTree};
use fwsite::ir::IR;
use fwsite::sitemap::{ModificationTimestampResolver, SiteMapBuilder};
use fwsite::source::{component_ids, SourceDir};
use fwsite::website::{has_unresolved_placeholder, PageContent, Website};

fn file(name: &str, content: &str, created: Option<u64>) -> FsTree {
    FsTree { entry_name: String::from(name), child: FsChild::File(String::from(content)), created }
}

fn small_source() -> SourceDir {
    SourceDir {
        website_yml: String::from("url: example.org\n"),
        templates: vec![(
            String::from("base.html"),
            String::from("<!DOCTYPE html><head></head>{{ components/header }}{{ body }}"),
        )],
        components: vec![(String::from("header"), String::from("<h1>{{ title }}</h1>"))],
        layout_css: String::from("body {}"),
        style_css: String::from("h1 {}"),
        pages: FsTree {
            entry_name: String::from("pages"),
            child: FsChild::Dir(vec![file(
                "about.yml",
                "template: base.html\nsteps:\n  - title: Us\n    body: Plain\n",
                Some(100),
            )]),
            created: None,
        },
        static_files: vec![(String::from("logo.bin"), vec![1u8, 2, 3])],
    }
}

#[test]
fn builds_a_small_site() {
    let ir = IR::new(small_source()).unwrap();
    assert_eq!(ir.config.url, "example.org");
    let site = Website::build(&ir, String::new(), 1704204000000).unwrap();
    let paths: Vec<&str> = site.pages.iter().map(|p| p.0.as_str()).collect();
    assert_eq!(
        paths,
        vec!["logo.bin", "layout.css", "style.css", "about.html", "about/index.html", "sitemap.xml"]
    );
    match &site.pages[3].1 {
        PageContent::Text(html) => {
            assert_eq!(html, "<!DOCTYPE html><head></head><h1>Us</h1>Plain");
        },
        other => panic!("unexpected content: {:?}", other),
    }
    match &site.pages[4].1 {
        PageContent::Text(html) => {
            assert_eq!(
                html,
                "<!DOCTYPE html><head><link rel=\"canonical\" href=\"/about.html\" /></head><h1>Us</h1>Plain"
            );
        },
        other => panic!("unexpected content: {:?}", other),
    }
    match &site.pages[5].1 {
        PageContent::Text(xml) => {
            assert_eq!(
                xml,
                "<urlset><url><loc>https://example.org/about.html</loc><lastmod>2024-01-02</lastmod></url></urlset>"
            );
        },
        other => panic!("unexpected content: {:?}", other),
    }
    assert!(site.validate());
    assert!(site.modifications.ends_with(",1704204000000"));
}

#[test]
fn validate_flags_unresolved_placeholders() {
    let site = Website {
        pages: vec![(
            String::from("broken.html"),
            PageContent::Text(String::from("<p>{{ body }}</p>")),
        )],
        modifications: String::new(),
    };
    assert!(!site.validate());
    let fine = Website {
        pages: vec![(String::from("ok.html"), PageContent::Text(String::from("<p>done</p>")))],
        modifications: String::new(),
    };
    assert!(fine.validate());
}

#[test]
fn validation_regex_works() {
    assert!(has_unresolved_placeholder("{{ test }}"));
    assert!(has_unresolved_placeholder("{{ test/csom }}"));
    assert!(!has_unresolved_placeholder("{{ test }"));
}

#[test]
fn sitemap_normalizes_the_root() {
    let mut sm = SiteMapBuilder::new(String::from("example.org"), String::new(), 1704204000000);
    sm.add(String::from("/index.html"), &vec![7u8]);
    assert_eq!(
        sm.build(),
        "<urlset><url><loc>https://example.org/</loc><lastmod>2024-01-02</lastmod></url></urlset>"
    );
}

#[test]
fn modification_log_remembers_timestamps() {
    let mut first = ModificationTimestampResolver::new(String::new());
    let content = vec![1u8, 2, 3];
    let day_one = first.get_change_time(&content, 1704204000000);
    assert_eq!(day_one, "2024-01-02");
    let saved = first.save_text();
    let mut second = ModificationTimestampResolver::new(saved);
    let later = second.get_change_time(&content, 1893456000000);
    assert_eq!(later, "2024-01-02");
    let mut fresh = ModificationTimestampResolver::new(String::new());
    let newly = fresh.get_change_time(&content, 1893456000000);
    assert_eq!(newly, "2030-01-01");
}

#[test]
fn component_ids_strip_the_extension() {
    let ids = component_ids(vec![
        (String::from("header.html"), String::from("<header/>")),
        (String::from("notes.txt"), String::from("skip")),
    ]);
    assert_eq!(ids, vec![(String::from("header"), String::from("<header/>"))]);
}

#[test]
fn git_log_timestamp_comes_from_the_last_line() {
    assert_eq!(fwsite::fs_tree::timestamp_from_log("1700000000\n1600000000"), Some(1600000000));
    assert_eq!(fwsite::fs_tree::timestamp_from_log("123"), Some(123));
    assert_eq!(fwsite::fs_tree::timestamp_from_log("123\n"), None);
    assert_eq!(fwsite::fs_tree::timestamp_from_log(""), None);
    assert_eq!(fwsite::fs_tree::timestamp_from_log("abc"), None);
}

#[test]
fn tree_lookup_follows_slash_paths() {
    let source = small_source();
    let ir = IR::new(source).unwrap();
    assert!(ir.pages.get(&String::from("pages/about.yml")).is_some());
    assert!(ir.pages.get(&String::from("pages/missing.yml")).is_none());
    assert!(ir.pages.get(&String::from("elsewhere/about.yml")).is_none());
}

#[test]
fn bad_configuration_is_rejected() {
    let mut source = small_source();
    source.website_yml = String::from("nourl: here\n");
    assert!(matches!(
        IR::new(source),
        Err(fwsite::ir::SourceFormatError::InvalidYaml(_, _))
    ));
}

#[test]
fn template_without_doctype_is_rejected() {
    let mut source = small_source();
    source.templates = vec![(String::from("base.html"), String::from("<html></html>"))];
    assert!(matches!(
        IR::new(source),
        Err(fwsite::ir::SourceFormatError::InvalidTemplateHTML(_, _))
    ));
}

#[test]
fn broken_descriptor_is_rejected() {
    let mut source = small_source();
    source.pages = FsTree {
        entry_name: String::from("pages"),
        child: FsChild::Dir(vec![file("bad.yml", "steps: 7\n", Some(1))]),
        created: None,
    };
    assert!(matches!(
        IR::new(source),
        Err(fwsite::ir::SourceFormatError::InvalidFsTree(_))
    ));
}

#[test]
fn failing_procedure_aborts_the_build() {
    let mut source = small_source();
    source.pages = FsTree {
        entry_name: String::from("pages"),
        child: FsChild::Dir(vec![file(
            "about.yml",
            "template: missing.html\nsteps: []\n",
            Some(100),
        )]),
        created: None,
    };
    let ir = IR::new(source).unwrap();
    let r = Website::build(&ir, String::new(), 1704204000000);
    assert!(matches!(
        r,
        Err(fwsite::procedure::BuildProcedureBuildError::TemplateNotFound(_))
    ));
}
