use handlebars::{Context, Handlebars, Helper, HelperResult, JsonRender, Output, RenderContext};
use parabuild::template::{default_value_helper, template_output_file};
use parabuild::{Json, Number};
use serde_json::Value;

fn to_json(value: &Value) -> Json {
    match value {
        Value::Null => Json::Null,
        Value::Bool(b) => Json::Bool(*b),
        Value::Number(n) => match (n.as_u64(), n.as_i64(), n.as_f64()) {
            (Some(u), _, _) => Json::Number(Number::PosInt(u)),
            (_, Some(i), _) => Json::Number(Number::NegInt(i)),
            (_, _, Some(f)) => Json::Number(Number::Real(f.to_bits())),
            _ => Json::Null,
        },
        Value::String(s) => Json::Text(s.clone()),
        Value::Array(items) => Json::Array(items.iter().map(to_json).collect()),
        Value::Object(members) => {
            Json::Object(members.iter().map(|(k, v)| (k.clone(), to_json(v))).collect())
        }
    }
}

fn helper(
    h: &Helper,
    _: &Handlebars,
    _: &Context,
    _: &mut RenderContext,
    out: &mut dyn Output,
) -> HelperResult {
    let param = h.param(0).unwrap();
    let default = h.param(1).unwrap();
    let param_value = to_json(param.value());
    let default_value = to_json(default.value());
    let chosen = default_value_helper(&param_value, &default_value);
    if std::ptr::eq(chosen, &default_value) {
        out.write(default.value().render().as_ref())?;
    } else {
        out.write(param.value().render().as_ref())?;
    }
    Ok(())
}

#[test]
fn test_default_helper() {
    let mut hbs = Handlebars::new();

    let mut members = serde_json::Map::new();
    members.insert("name".to_string(), Value::from("Turing"));
    members.insert("age".to_string(), Value::from(42));
    let data = Value::Object(members);

    hbs.register_helper("default", Box::new(helper));

    let template = "{{default name 'Alan'}}";
    let rendered = hbs.render_template(template, &data).unwrap();
    assert_eq!(rendered, "Turing");

    let template = "{{default age 99}}";
    let rendered = hbs.render_template(template, &data).unwrap();
    assert_eq!(rendered, "42");

    let template = "{{default missing 'default'}}";
    let rendered = hbs.render_template(template, &data).unwrap();
    assert_eq!(rendered, "default");

    let template = r#"{{default missing "default"}}"#;
    let rendered = hbs.render_template(template, &data).unwrap();
    assert_eq!(rendered, "default");
}

#[test]
fn the_fallback_is_taken_only_for_null() {
    let fallback = Json::Number(Number::PosInt(42));
    assert_eq!(*default_value_helper(&Json::Null, &fallback), fallback);
    for param in [
        Json::Bool(false),
        Json::Number(Number::PosInt(0)),
        Json::Text(String::new()),
        Json::Array(vec![]),
        Json::Object(vec![]),
    ] {
        assert!(std::ptr::eq(default_value_helper(&param, &fallback), &param));
    }
    assert!(std::ptr::eq(default_value_helper(&Json::Null, &fallback), &fallback));
    assert_eq!(*default_value_helper(&Json::Null, &Json::Null), Json::Null);
}

#[test]
fn the_rendering_goes_beside_the_template_or_over_it() {
    assert_eq!(template_output_file("src/main.cpp.template", false), "src/main.cpp");
    assert_eq!(template_output_file("src/main.cpp.template", true), "src/main.cpp.template");
    assert_eq!(template_output_file("src/main.cpp", true), "src/main.cpp");
    assert_eq!(template_output_file("src/main.cpp", false), "src/main");
    assert_eq!(template_output_file("Makefile", false), "Makefile");
    assert_eq!(template_output_file("", false), "");
}
