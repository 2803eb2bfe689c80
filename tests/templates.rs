use aether_kernel::templates::{
    get_template_dir, render_template, to_camel_case, to_pascal_case, to_snake_case, TemplateType,
    TemplateVariables,
};
use std::path::Path;

#[test]
fn test_to_camel_case() {
    assert_eq!(to_camel_case("hello-world"), "helloWorld");
    assert_eq!(to_camel_case("hello_world"), "helloWorld");
    assert_eq!(to_camel_case("HelloWorld"), "helloWorld");
    assert_eq!(to_camel_case("my-project-name"), "myProjectName");
}

#[test]
fn test_to_pascal_case() {
    assert_eq!(to_pascal_case("hello-world"), "HelloWorld");
    assert_eq!(to_pascal_case("hello_world"), "HelloWorld");
    assert_eq!(to_pascal_case("my-project-name"), "MyProjectName");
}

#[test]
fn test_to_snake_case() {
    assert_eq!(to_snake_case("helloWorld"), "hello_world");
    assert_eq!(to_snake_case("HelloWorld"), "hello_world");
    assert_eq!(to_snake_case("myProjectName"), "my_project_name");
}

#[test]
fn test_template_variables() {
    let vars = TemplateVariables::new("my-awesome-project");

    assert_eq!(vars.project_name, "my-awesome-project");
    assert_eq!(vars.workflow_name, "myAwesomeProject");
    assert_eq!(vars.workflow_name_snake, "my_awesome_project");
    assert_eq!(vars.input_type, "MyAwesomeProjectInput");
}

#[test]
fn test_render_template() {
    let vars = TemplateVariables::new("my-project");

    let content = r#"
name: {{ project_name }}
workflow: {{ workflow_name }}
snake: {{ workflow_name_snake }}
input: {{ input_type }}
"#;

    let rendered = render_template(content, &vars);

    assert!(rendered.contains("name: my-project"));
    assert!(rendered.contains("workflow: myProject"));
    assert!(rendered.contains("snake: my_project"));
    assert!(rendered.contains("input: MyProjectInput"));
}

#[test]
fn test_template_type_from_str() {
    assert_eq!(TemplateType::from_str("ts").unwrap(), TemplateType::TypeScript);
    assert_eq!(TemplateType::from_str("typescript").unwrap(), TemplateType::TypeScript);
    assert_eq!(TemplateType::from_str("nestjs").unwrap(), TemplateType::NestJS);
    assert_eq!(TemplateType::from_str("python").unwrap(), TemplateType::Python);
    assert!(TemplateType::from_str("unknown").is_err());
}

#[test]
fn template_type_accepts_any_case() {
    assert_eq!(TemplateType::from_str("TS").unwrap(), TemplateType::TypeScript);
    assert_eq!(TemplateType::from_str("Nest").unwrap(), TemplateType::NestJS);
    assert_eq!(TemplateType::from_str("PY").unwrap(), TemplateType::Python);
    let err = TemplateType::from_str("rust").unwrap_err();
    assert_eq!(err, "Unknown template type: rust. Supported types: ts, nestjs, python");
}

#[test]
fn case_conversion_splits_on_white_space() {
    assert_eq!(to_camel_case("my project"), "myProject");
    assert_eq!(to_pascal_case("my project"), "MyProject");
    assert_eq!(to_snake_case("my project"), "my_project");
    assert_eq!(to_snake_case(""), "");
    assert_eq!(to_camel_case("--a"), "A");
}

#[test]
fn render_replaces_every_placeholder() {
    let vars = TemplateVariables::new("x");
    let out = render_template("{{ project_name }}/{{ project_name }} {{ input_type }}", &vars);
    assert_eq!(out, "x/x XInput");
    assert_eq!(render_template("no placeholders", &vars), "no placeholders");
}

#[test]
fn template_dir_is_under_templates() {
    let dir = get_template_dir(TemplateType::NestJS, Path::new("/cli"));
    assert_eq!(dir, Path::new("/cli/templates/nestjs"));
    assert_eq!(TemplateType::Python.dir_name(), "python");
}
