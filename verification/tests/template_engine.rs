use stackql_deploy::engine::{full_error_chain, rendering_result, TemplateEngine, TemplateError};
use stackql_deploy::render::{
    inline_template_name, missing_variables, prepare_template, preprocess_inline_dicts,
    preprocess_jinja2_compat, query_template_name, render_inline_template, render_query,
};
use stackql_deploy::varmap::VarMap;
use stackql_deploy::options::FailureAction;
use std::str::FromStr;

fn engine() -> TemplateEngine {
    TemplateEngine::new(tera::Tera::default())
}

fn vm(pairs: &[(&str, &str)]) -> VarMap {
    let mut m = VarMap::new();
    for (k, v) in pairs {
        m.insert(k.to_string(), v.to_string());
    }
    m
}

#[test]
fn test_simple_variable_substitution() {
    let engine = engine();
    let context = vm(&[("name", "World")]);

    let result = engine.render("Hello {{ name }}!", &context).unwrap();
    assert_eq!(result, "Hello World!");
}

#[test]
fn test_multiple_variables() {
    let engine = engine();
    let context = vm(&[("first", "Hello"), ("second", "World")]);

    let result = engine.render("{{ first }} {{ second }}!", &context).unwrap();
    assert_eq!(result, "Hello World!");
}

#[test]
fn test_variable_not_found() {
    let engine = engine();
    let context = VarMap::new();

    let result = engine.render("Hello {{ name }}!", &context);
    assert!(result.is_err());
}

#[test]
fn test_nested_braces() {
    let engine = engine();
    let context = vm(&[("json", r#"{"key": "value"}"#)]);

    let result = engine.render("JSON: {{ json }}", &context).unwrap();
    assert_eq!(result, r#"JSON: {"key": "value"}"#);
}

#[test]
fn test_render_with_filters_missing_var_shows_name() {
    let engine = engine();
    let context = VarMap::new();

    let result = engine.render_with_filters("test_tpl", "Hello {{ missing_var }}!", &context);
    assert!(result.is_err());
    let err_msg = result.unwrap_err().to_string();
    assert!(
        err_msg.contains("missing_var"),
        "Error should mention the missing variable name, got: {}",
        err_msg
    );
}

#[test]
fn test_render_with_filters_missing_var_is_variable_not_found() {
    let engine = engine();
    let context = VarMap::new();

    let result = engine.render_with_filters("test_tpl", "{{ no_such_var }}", &context);
    match result {
        Err(TemplateError::VariableNotFound(msg)) => {
            assert!(
                msg.contains("no_such_var"),
                "VariableNotFound error should contain variable name, got: {}",
                msg
            );
        }
        other => panic!("Expected VariableNotFound error, got: {:?}", other),
    }
}

#[test]
fn syntax_error_is_reported_as_such() {
    let result = engine().render_with_filters("bad", "{{ unclosed ", &VarMap::new());
    assert!(matches!(result, Err(TemplateError::SyntaxError(_))));
}

#[test]
fn render_with_filters_sets_a_uuid() {
    let out = engine().render_with_filters("u", "{{ uuid }}", &VarMap::new()).unwrap();
    assert_eq!(out.len(), 36);
    assert_eq!(out.matches('-').count(), 4);
}

#[test]
fn error_texts() {
    assert_eq!(TemplateError::VariableNotFound("x".to_string()).to_string(), "Variable not found: x");
    assert_eq!(TemplateError::SyntaxError("x".to_string()).to_string(), "Template syntax error: x");
    assert_eq!(TemplateError::InvalidTemplate("x".to_string()).to_string(), "Invalid template: x");
    assert_eq!(TemplateError::RenderError("x".to_string()).to_string(), "Render error: x");
}

#[test]
fn error_chain_is_joined() {
    let parts = vec!["a".to_string(), "b".to_string(), "c".to_string()];
    assert_eq!(full_error_chain(&parts), "a: b: c");
    assert_eq!(full_error_chain(&Vec::new()), "");
}

#[test]
fn rendering_failures_are_classified() {
    match rendering_result(Err(vec!["Failed to render".to_string(), "Variable `x` not found in context".to_string()])) {
        Err(TemplateError::VariableNotFound(m)) => assert_eq!(m, "Failed to render: Variable `x` not found in context"),
        other => panic!("unexpected: {:?}", other),
    }
    assert!(matches!(rendering_result(Err(vec!["boom".to_string()])), Err(TemplateError::RenderError(_))));
    assert_eq!(rendering_result(Ok("done".to_string())).unwrap(), "done");
}

#[test]
fn jinja2_constructs_are_rewritten() {
    assert_eq!(preprocess_jinja2_compat("id: {{ uuid() }}"), "id: {{ uuid }}");
    assert_eq!(
        preprocess_jinja2_compat("{{ name | replace('-', '_') }}"),
        r#"{{ name | replace(from="-", to="_") }}"#
    );
    assert_eq!(preprocess_jinja2_compat("plain"), "plain");
}

#[test]
fn inline_dicts_become_variables() {
    let mut ctx = vm(&[("description", "my role"), ("path", "/")]);
    let out = preprocess_inline_dicts(
        r#"SELECT {{ { "Description": description, "Path": path } | generate_patch_document }}"#,
        &mut ctx,
    );
    assert_eq!(out, "SELECT {{ __inline_dict_0 | generate_patch_document }}");
    assert_eq!(
        ctx.get("__inline_dict_0").map(|s| s.as_str()),
        Some(r#"{"Description":"my role","Path":"/"}"#)
    );
}

#[test]
fn several_inline_dicts_are_numbered() {
    let mut ctx = vm(&[("a", "[1,2]")]);
    let out = preprocess_inline_dicts("{{ { 'x': a } | f }} and {{ {'y': missing} | g }}", &mut ctx);
    assert_eq!(out, "{{ __inline_dict_0 | f }} and {{ __inline_dict_1 | g }}");
    assert_eq!(ctx.get("__inline_dict_0").map(|s| s.as_str()), Some(r#"{"x":[1,2]}"#));
    assert_eq!(ctx.get("__inline_dict_1").map(|s| s.as_str()), Some(r#"{"y":""}"#));
}

#[test]
fn template_without_inline_dict_is_unchanged() {
    let mut ctx = vm(&[("a", "1")]);
    let out = preprocess_inline_dicts("{{ a }}", &mut ctx);
    assert_eq!(out, "{{ a }}");
    assert_eq!(ctx.len(), 1);
}

#[test]
fn missing_variables_are_listed() {
    let ctx = vm(&[("region", "us-east-1")]);
    let missing = missing_variables("{{ region }} {{ vpc_id }} {{ subnet | upper }}", &ctx);
    assert_eq!(missing, vec!["vpc_id".to_string(), "subnet".to_string()]);
}

#[test]
fn template_names() {
    assert_eq!(query_template_name("vpc", "exists"), "vpc__exists");
    assert_eq!(inline_template_name("vpc"), "vpc__inline");
}

#[test]
fn prepared_templates() {
    let (t, c) = prepare_template("{{ uuid() }}", &vm(&[("a", "1")]));
    assert_eq!(t, "{{ uuid }}");
    assert_eq!(c.len(), 1);
}

#[test]
fn queries_render_or_report_missing_variables() {
    let e = engine();
    let ctx = vm(&[("region", "us-east-1")]);
    assert_eq!(render_query(&e, "vpc", "exists", "SELECT '{{ region }}'", &ctx).ok(), Some("SELECT 'us-east-1'".to_string()));
    match render_query(&e, "vpc", "exists", "SELECT '{{ vpc_id }}'", &ctx) {
        Err(f) => {
            assert_eq!(f.missing, vec!["vpc_id".to_string()]);
            assert!(f.error.starts_with("Variable not found: "), "got: {}", f.error);
        }
        Ok(s) => panic!("unexpected rendering: {}", s),
    }
    match render_inline_template(&e, "q", "SELECT {{ nope }}", &ctx) {
        Err(f) => assert_eq!(f.missing, vec!["nope".to_string()]),
        Ok(s) => panic!("unexpected rendering: {}", s),
    }
}

#[test]
fn test_tagless_template_renders_as_itself() {
    let e = engine();
    let ctx = vm(&[("region", "us-east-1")]);
    let text = "SELECT * FROM t WHERE a = '{x}' AND b = 'y}}'\n";
    assert_eq!(e.render(text, &ctx).ok(), Some(text.to_string()));
    assert_eq!(e.render_template(text, &ctx).ok(), Some(text.to_string()));
    assert_eq!(e.render_with_tera_context(text, &tera::Context::new()).ok(), Some(text.to_string()));
    assert_eq!(e.render_with_filters("plain", text, &ctx).ok(), Some(text.to_string()));
    assert_eq!(e.render("", &ctx).ok(), Some(String::new()));
}

#[test]
fn test_tagless_query_renders_as_prepared() {
    let e = engine();
    let ctx = vm(&[]);
    assert_eq!(render_query(&e, "vpc", "exists", "SELECT 1", &ctx).ok(), Some("SELECT 1".to_string()));
    assert_eq!(render_inline_template(&e, "vpc", "SELECT 2", &ctx).ok(), Some("SELECT 2".to_string()));
}

#[test]
fn test_failure_action_from_str() {
    assert_eq!(FailureAction::from_str("Ignore"), Ok(FailureAction::Ignore));
    assert_eq!(FailureAction::from_str("nope"), Err("Unknown failure action: nope".to_string()));
}

#[test]
fn test_placeholders_are_substituted_and_escaped_by_suffix() {
    let e = engine();
    let ctx = vm(&[("x", "<b>"), ("y", "2")]);
    assert_eq!(e.render_with_filters("plain_sql", "a{{ x }}b{{ y }}", &ctx).ok(), Some("a<b>b2".to_string()));
    assert_eq!(e.render_with_filters("page.html", "{{ x }}", &ctx).ok(), Some("&lt;b&gt;".to_string()));
    assert!(e.render("{{ missing }}", &ctx).is_err());
    assert_eq!(e.render("{{ y }}{{ y }}", &ctx).ok(), Some("22".to_string()));
}
