use xet_composer_backend::sol_template_engine::{
    ParamValue, SolTemplateEngine, TemplateError, TemplateParam,
};

fn vesting_engine() -> SolTemplateEngine {
    let templates = vec![(
        "Vesting.sol.tera".to_string(),
        "contract Vesting {\n    address public beneficiary = {{ beneficiary }};\n    uint public start = {{ start }};\n}\n"
            .to_string(),
    )];
    SolTemplateEngine::new(templates).ok().expect("templates parse")
}

fn vesting_params() -> Vec<TemplateParam> {
    vec![
        TemplateParam {
            key: "beneficiary".to_string(),
            value: ParamValue::Text("0xabc1234567890abcdef1234567890abcdef12345".to_string()),
        },
        TemplateParam {
            key: "start".to_string(),
            value: ParamValue::UInt(1700000000),
        },
    ]
}

#[test]
fn render_substitutes_literal_values() {
    let engine = vesting_engine();
    let rendered = engine
        .render_template("Vesting.sol.tera", &vesting_params())
        .ok()
        .expect("render succeeds");
    assert!(rendered.contains("0xabc1234567890abcdef1234567890abcdef12345"));
    assert!(rendered.contains("1700000000"));
    assert!(rendered.contains("contract Vesting"));
}

#[test]
fn unknown_template_is_template_not_found() {
    let engine = vesting_engine();
    let r = engine.render_template("Missing.sol.tera", &vesting_params());
    match r {
        Err(TemplateError::TemplateNotFound(name)) => assert_eq!(name, "Missing.sol.tera"),
        _ => panic!("expected TemplateNotFound"),
    }
}

#[test]
fn undefined_variable_is_render_error() {
    let templates = vec![(
        "Bad.sol.tera".to_string(),
        "value: {{ not_supplied }}".to_string(),
    )];
    let engine = SolTemplateEngine::new(templates).ok().expect("template parses");
    let r = engine.render_template("Bad.sol.tera", &Vec::new());
    assert!(matches!(r, Err(TemplateError::RenderError(_))));
}

#[test]
fn prepared_context_carries_structured_parameters() {
    // A structured (array-valued) parameter passes through a prepared
    // context, so a template that iterates it still renders.
    let templates = vec![(
        "List.sol.tera".to_string(),
        "{% for h in holders %}addr {{ h }};{% endfor %} count {{ meta.count }}".to_string(),
    )];
    let engine = SolTemplateEngine::new(templates).ok().expect("template parses");
    let params: serde_json::Value = serde_json::from_str(
        "{\"holders\":[\"0xa1\",\"0xb2\"],\"meta\":{\"count\":2}}",
    )
    .unwrap();
    let ctx = tera::Context::from_serialize(&params).expect("params serialize");
    let rendered = engine
        .render_template_with_context("List.sol.tera", &ctx)
        .ok()
        .expect("render succeeds");
    assert_eq!(rendered, "addr 0xa1;addr 0xb2; count 2");
}

#[test]
fn prepared_context_unknown_template_still_not_found() {
    let engine = vesting_engine();
    let ctx = tera::Context::new();
    let r = engine.render_template_with_context("Missing.sol.tera", &ctx);
    assert!(matches!(r, Err(TemplateError::TemplateNotFound(_))));
}

#[test]
fn invalid_template_fails_construction() {
    let templates = vec![(
        "Broken.sol.tera".to_string(),
        "{% if unclosed %}".to_string(),
    )];
    let r = SolTemplateEngine::new(templates);
    assert!(matches!(r, Err(TemplateError::InitError(_))));
}
