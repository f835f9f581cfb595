use reacty_yew::{GenerationError, IntrinsicType, TypeProperty};

fn property(name: &str, intrinsic_type: Option<&str>, optional: bool) -> TypeProperty {
    TypeProperty {
        intrinsic_type: intrinsic_type.map(|name| name.to_string()),
        name: name.to_string(),
        optional,
    }
}

fn unsupported(property: &str, intrinsic_type: Option<&str>) -> GenerationError {
    GenerationError::UnsupportedIntrinsicType {
        property: property.to_string(),
        intrinsic_type: intrinsic_type.map(|name| name.to_string()),
    }
}

#[test]
fn the_four_names_are_known() {
    assert_eq!(IntrinsicType::from_name("string"), Some(IntrinsicType::Text));
    assert_eq!(IntrinsicType::from_name("number"), Some(IntrinsicType::Number));
    assert_eq!(IntrinsicType::from_name("boolean"), Some(IntrinsicType::Boolean));
    assert_eq!(IntrinsicType::from_name("any"), Some(IntrinsicType::Any));
}

#[test]
fn other_names_are_not_known() {
    assert_eq!(IntrinsicType::from_name(""), None);
    assert_eq!(IntrinsicType::from_name("String"), None);
    assert_eq!(IntrinsicType::from_name("string "), None);
    assert_eq!(IntrinsicType::from_name("object"), None);
    assert_eq!(IntrinsicType::from_name("number[]"), None);
}

#[test]
fn native_types_of_the_intrinsic_types() {
    assert_eq!(IntrinsicType::Text.native_type(), "String");
    assert_eq!(IntrinsicType::Number.native_type(), "f64");
    assert_eq!(IntrinsicType::Boolean.native_type(), "bool");
    assert_eq!(IntrinsicType::Any.native_type(), "JsValue");
}

#[test]
fn conversions_of_the_intrinsic_types() {
    for optional in [false, true] {
        assert_eq!(
            IntrinsicType::Text.conversion("text", optional),
            "JsValue::from_serde(text).unwrap()"
        );
        assert_eq!(
            IntrinsicType::Number.conversion("count", optional),
            "JsValue::from_serde(count).unwrap()"
        );
        assert_eq!(
            IntrinsicType::Boolean.conversion("on", optional),
            "JsValue::from_serde(on).unwrap()"
        );
    }
    assert_eq!(IntrinsicType::Any.conversion("data", false), "data.to_owned()");
    assert_eq!(
        IntrinsicType::Any.conversion("data", true),
        "data.to_owned().unwrap_or_else(JsValue::null)"
    );
}

#[test]
fn only_any_is_not_encoded() {
    assert!(IntrinsicType::Text.is_encoded());
    assert!(IntrinsicType::Number.is_encoded());
    assert!(IntrinsicType::Boolean.is_encoded());
    assert!(!IntrinsicType::Any.is_encoded());
}

#[test]
fn conversion_of_an_optional_any_property_yields_the_value_or_null() {
    assert_eq!(
        property("data", Some("any"), true).conversion_to_js_type("data"),
        Ok("data.to_owned().unwrap_or_else(JsValue::null)".to_string())
    );
    assert_eq!(
        property("text", Some("string"), true).conversion_to_js_type("text"),
        Ok("JsValue::from_serde(text).unwrap()".to_string())
    );
}

#[test]
fn name_ident_is_the_name() {
    assert_eq!(property("text", Some("string"), false).name_ident(), "text");
    assert_eq!(property("on_click", None, true).name_ident(), "on_click");
}

#[test]
fn rust_type_of_each_known_intrinsic_type() {
    assert_eq!(
        property("a", Some("string"), false).rust_type_for_intrinsic_type(),
        Ok("String".to_string())
    );
    assert_eq!(
        property("a", Some("number"), false).rust_type_for_intrinsic_type(),
        Ok("f64".to_string())
    );
    assert_eq!(
        property("a", Some("boolean"), true).rust_type_for_intrinsic_type(),
        Ok("bool".to_string())
    );
    assert_eq!(
        property("a", Some("any"), true).rust_type_for_intrinsic_type(),
        Ok("JsValue".to_string())
    );
}

#[test]
fn value_type_of_a_required_property_is_the_native_type() {
    assert_eq!(property("a", Some("string"), false).value_type(), Ok("String".to_string()));
    assert_eq!(property("a", Some("any"), false).value_type(), Ok("JsValue".to_string()));
}

#[test]
fn value_type_of_an_optional_property_is_an_option() {
    assert_eq!(property("a", Some("number"), true).value_type(), Ok("Option<f64>".to_string()));
    assert_eq!(property("a", Some("boolean"), true).value_type(), Ok("Option<bool>".to_string()));
}

#[test]
fn value_type_of_an_unsupported_property_fails() {
    assert_eq!(property("a", Some("void"), true).value_type(), Err(unsupported("a", Some("void"))));
    assert_eq!(property("a", None, false).value_type(), Err(unsupported("a", None)));
}

#[test]
fn rust_type_of_an_unknown_intrinsic_type_fails() {
    assert_eq!(
        property("items", Some("number[]"), false).rust_type_for_intrinsic_type(),
        Err(unsupported("items", Some("number[]")))
    );
}

#[test]
fn rust_type_of_an_unresolved_intrinsic_type_fails() {
    assert_eq!(
        property("items", None, false).rust_type_for_intrinsic_type(),
        Err(unsupported("items", None))
    );
}

#[test]
fn conversion_of_each_known_intrinsic_type() {
    assert_eq!(
        property("a", Some("string"), false).conversion_to_js_type("a"),
        Ok("JsValue::from_serde(a).unwrap()".to_string())
    );
    assert_eq!(
        property("a", Some("number"), false).conversion_to_js_type("a"),
        Ok("JsValue::from_serde(a).unwrap()".to_string())
    );
    assert_eq!(
        property("a", Some("boolean"), false).conversion_to_js_type("a"),
        Ok("JsValue::from_serde(a).unwrap()".to_string())
    );
    assert_eq!(
        property("a", Some("any"), false).conversion_to_js_type("value"),
        Ok("value.to_owned()".to_string())
    );
}

#[test]
fn conversion_of_an_unsupported_intrinsic_type_fails() {
    assert_eq!(
        property("cb", Some("function"), false).conversion_to_js_type("cb"),
        Err(unsupported("cb", Some("function")))
    );
    assert_eq!(
        property("cb", None, true).conversion_to_js_type("cb"),
        Err(unsupported("cb", None))
    );
}

#[test]
fn intrinsic_of_a_property() {
    assert_eq!(property("a", Some("any"), false).intrinsic(), Ok(IntrinsicType::Any));
    assert_eq!(property("a", Some("Any"), false).intrinsic(), Err(unsupported("a", Some("Any"))));
    assert_eq!(property("a", None, false).intrinsic(), Err(unsupported("a", None)));
}

#[test]
fn messages_of_the_failures() {
    assert_eq!(
        GenerationError::SchemaUnavailable.message(),
        "reacty_yew: the analyzer could not be run, or it failed"
    );
    assert_eq!(
        GenerationError::SchemaMalformed.message(),
        "reacty_yew: the output of the analyzer is not a schema"
    );
    assert_eq!(
        GenerationError::UnresolvedPropsReference {
            component: "BadButton".to_string(),
            props_name: "BadButtonProps".to_string(),
        }
        .message(),
        "reacty_yew: component \"BadButton\" has the props type \"BadButtonProps\", which the schema does not hold"
    );
    assert_eq!(
        unsupported("items", Some("number[]")).message(),
        "reacty_yew: Unable to convert intrinsic type \"number[]\" to Rust type (property \"items\")"
    );
    assert_eq!(
        unsupported("items", None).message(),
        "reacty_yew: Unsupported TS intrinsic type (property \"items\")"
    );
}

#[test]
fn an_absent_optional_value_crosses_as_null_whatever_its_type() {
    assert_eq!(serde_json::to_string(&None::<String>).expect("an encoding"), "null");
    assert_eq!(serde_json::to_string(&None::<f64>).expect("an encoding"), "null");
    assert_eq!(serde_json::to_string(&None::<bool>).expect("an encoding"), "null");
    let conversion = property("data", Some("any"), true)
        .conversion_to_js_type("data")
        .expect("a conversion");
    assert!(conversion.ends_with(".unwrap_or_else(JsValue::null)"));
}
