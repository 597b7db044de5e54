use fwsite::procedure::{BuildProcedure, BuildProcedureLoadError};
use fwsite::value::Value;

fn var<'a>(step: &'a fwsite::procedure::Step, name: &str) -> &'a Value {
    &step.vars.iter().find(|(k, _)| k == name).expect("binding missing").1
}

#[test]
fn typed() {
    let deserialised = BuildProcedure::new(
        r#"
    template: base-page.html

    steps:
      - timestamp:
          type: unixTimestamp
          value: 1704204000
        text:
          type: md
          path: blog/size-aosp.blog
    "#,
    );
    deserialised.unwrap();
}

#[test]
fn mixed() {
    let deserialised = BuildProcedure::new(
        r#"
    template: base-page.html

    steps:
      - "Setup blog template":
        title: "How many lines of code are in Android?"
        content: "{{ components/blog-entry }}"
      - "Fill data":
        description: "Here is how I found out that the AOSP has 2.5 million lines of code."
        timestamp:
          type: unixTimestamp
          value: 1704204000
        text:
          type: md
          path: blog/size-aosp.blog
    "#,
    );
    deserialised.unwrap();
}

#[test]
fn decodes_sample_blog_template() {
    let procedure = BuildProcedure::new(
        r#"template: base-page.html

steps:
  - "Setup blog template":
    title: How many lines of code are in Android?
    content: "{{ components/blog-entry }}"
  - "Fill data":
    description: Here is how I found out that the AOSP has 2.5 million lines of code.
    timestamp:
      type: unixTimestamp
      value: 1704204000
    text:
      type: md
      path: blog/size-aosp.blog

"#,
    );
    let procedure = procedure.unwrap();
    assert_eq!(procedure.template, "base-page.html");
    let steps = procedure.steps;
    assert_eq!(steps.len(), 2);
    assert_eq!(steps.get(0).unwrap().name, Some(String::from("Setup blog template")));
    assert_eq!(steps.get(0).unwrap().vars.len(), 2);
    assert_eq!(
        var(steps.get(0).unwrap(), "title"),
        &Value::Text(String::from("How many lines of code are in Android?"))
    );
    assert_eq!(
        var(steps.get(0).unwrap(), "content"),
        &Value::Text(String::from("{{ components/blog-entry }}"))
    );
    assert_eq!(steps.get(1).unwrap().name, Some(String::from("Fill data")));
    assert_eq!(steps.get(1).unwrap().vars.len(), 3);
    assert_eq!(
        var(steps.get(1).unwrap(), "description"),
        &Value::Text(String::from(
            "Here is how I found out that the AOSP has 2.5 million lines of code."
        ))
    );
    assert_eq!(var(steps.get(1).unwrap(), "timestamp"), &Value::UnixTimestamp { value: 1704204000 });
    assert_eq!(
        var(steps.get(1).unwrap(), "text"),
        &Value::Md { path: String::from("blog/size-aosp.blog") }
    );
}

#[test]
fn rejects_second_unvalued_key() {
    let procedure = BuildProcedure::new(
        "template: base.html\nsteps:\n  - first:\n    second:\n",
    );
    assert!(matches!(
        procedure,
        Err(BuildProcedureLoadError::UnexpectNoneVariableValue)
    ));
}

#[test]
fn rejects_text_that_is_not_yaml() {
    let procedure = BuildProcedure::new(": : :");
    assert!(matches!(procedure, Err(BuildProcedureLoadError::FormatError(_))));
}

#[test]
fn rejects_missing_template_key() {
    let procedure = BuildProcedure::new("steps: []\n");
    assert!(matches!(procedure, Err(BuildProcedureLoadError::FormatError(_))));
}

#[test]
fn rejects_unknown_value_type() {
    let procedure = BuildProcedure::new(
        "template: base.html\nsteps:\n  - entry:\n      type: calendar\n      path: x\n",
    );
    assert!(matches!(procedure, Err(BuildProcedureLoadError::FormatError(_))));
}

#[test]
fn parses_index_value() {
    let procedure = BuildProcedure::new(
        "template: base.html\nsteps:\n  - feed:\n      type: index\n      path: blog\n      itemTemplate: blog-item\n",
    );
    let procedure = procedure.unwrap();
    assert_eq!(procedure.steps.len(), 1);
    assert_eq!(procedure.steps[0].name, None);
    assert_eq!(
        var(&procedure.steps[0], "feed"),
        &Value::Index { path: String::from("blog"), item_template: String::from("blog-item") }
    );
}

#[test]
fn parses_int_and_text_values() {
    let procedure = BuildProcedure::new(
        "template: base.html\nsteps:\n  - count: 7\n    raw:\n      type: text\n      path: a.txt\n",
    );
    let procedure = procedure.unwrap();
    assert_eq!(var(&procedure.steps[0], "count"), &Value::Int(7));
    assert_eq!(var(&procedure.steps[0], "raw"), &Value::TextFile { path: String::from("a.txt") });
}
