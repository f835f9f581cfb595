use reacty_yew::{
    component_props_struct, component_render_function, component_struct_and_impl, generate_module,
    ingest, react_component_mod, AnalyzerOutput, AnalyzerRun, Component, GenerationError, Type,
    TypeProperty,
};

fn property(name: &str, intrinsic_type: Option<&str>, optional: bool) -> TypeProperty {
    TypeProperty {
        intrinsic_type: intrinsic_type.map(|name| name.to_string()),
        name: name.to_string(),
        optional,
    }
}

fn named_type(name: &str, properties: Vec<TypeProperty>) -> Type {
    Type { name: name.to_string(), properties }
}

fn component(name: &str, props_name: &str) -> Component {
    Component { name: name.to_string(), props_name: props_name.to_string() }
}

fn lines(parts: &[&str]) -> String {
    let mut text = String::new();
    for part in parts {
        text.push_str(part);
        text.push('\n');
    }
    text
}

fn bad_button() -> AnalyzerOutput {
    AnalyzerOutput {
        types: vec![named_type("BadButtonProps", vec![property("text", Some("string"), false)])],
        components: vec![component("BadButton", "BadButtonProps")],
    }
}

fn succeeded(document: AnalyzerOutput) -> AnalyzerRun {
    AnalyzerRun::Exited { success: true, document: Some(document) }
}

fn unresolved(component: &str, props_name: &str) -> GenerationError {
    GenerationError::UnresolvedPropsReference {
        component: component.to_string(),
        props_name: props_name.to_string(),
    }
}

const PRELUDE: [&str; 7] = [
    "mod bad_button {",
    "use wasm_bindgen::prelude::*;",
    "use yew::prelude::*;",
    "use yew::web_sys::{self, Node};",
    "use yew::virtual_dom::VNode;",
    "use serde::{Serialize, Deserialize};",
    "",
];

#[test]
fn ingest_of_a_run_that_did_not_start_is_unavailable() {
    assert_eq!(ingest(AnalyzerRun::NotStarted), Err(GenerationError::SchemaUnavailable));
}

#[test]
fn ingest_of_a_run_that_failed_is_unavailable() {
    assert_eq!(
        ingest(AnalyzerRun::Exited { success: false, document: None }),
        Err(GenerationError::SchemaUnavailable)
    );
    assert_eq!(
        ingest(AnalyzerRun::Exited { success: false, document: Some(bad_button()) }),
        Err(GenerationError::SchemaUnavailable)
    );
}

#[test]
fn ingest_of_a_run_that_printed_no_schema_is_malformed() {
    assert_eq!(
        ingest(AnalyzerRun::Exited { success: true, document: None }),
        Err(GenerationError::SchemaMalformed)
    );
}

#[test]
fn ingest_keeps_the_first_type_of_a_name_and_every_component() {
    let a = property("a", Some("string"), false);
    let b = property("b", Some("number"), false);
    let document = AnalyzerOutput {
        types: vec![
            named_type("P", vec![a.clone()]),
            named_type("P", vec![b]),
            named_type("Q", vec![]),
        ],
        components: vec![component("C", "P"), component("C", "P"), component("D", "Q")],
    };
    assert_eq!(
        ingest(succeeded(document)),
        Ok(AnalyzerOutput {
            types: vec![named_type("P", vec![a]), named_type("Q", vec![])],
            components: vec![component("C", "P"), component("C", "P"), component("D", "Q")],
        })
    );
}

#[test]
fn module_of_one_component() {
    let schema = bad_button();
    let props = &schema.types[0];
    let container = component_props_struct(props).expect("a container");
    let (render_fn_name, bridge) =
        component_render_function("BadButtonLib", "BadButton", props).expect("a bridge");
    let wrapper = component_struct_and_impl("BadButton", props, &render_fn_name);
    let expected = format!("{}{}\n{}\n{}\n}}\n", lines(&PRELUDE), container, wrapper, bridge);
    assert_eq!(generate_module("bad_button", "BadButtonLib", &schema), Ok(expected));
}

#[test]
fn module_of_the_bad_button_in_full() {
    let expected = lines(&[
        "mod bad_button {",
        "use wasm_bindgen::prelude::*;",
        "use yew::prelude::*;",
        "use yew::web_sys::{self, Node};",
        "use yew::virtual_dom::VNode;",
        "use serde::{Serialize, Deserialize};",
        "",
        "#[derive(Clone, Properties, Serialize)]",
        "pub struct BadButtonProps {",
        "    pub text: String,",
        "}",
        "",
        "pub struct BadButton {",
        "    node: Node,",
        "    props: BadButtonProps,",
        "}",
        "",
        "impl Component for BadButton {",
        "    type Message = ();",
        "    type Properties = BadButtonProps;",
        "",
        "    fn create(props: Self::Properties, _link: ComponentLink<Self>) -> Self {",
        "        Self {",
        "            node: Node::from(",
        "                web_sys::window()",
        "                    .unwrap()",
        "                    .document()",
        "                    .unwrap()",
        "                    .create_element(\"div\")",
        "                    .unwrap(),",
        "            ),",
        "            props,",
        "        }",
        "    }",
        "",
        "    fn change(&mut self, new_props: Self::Properties) -> ShouldRender {",
        "        self.props = new_props;",
        "        true",
        "    }",
        "",
        "    fn update(&mut self, msg: Self::Message) -> ShouldRender {",
        "        true",
        "    }",
        "",
        "    fn view(&self) -> Html {",
        "        render_BadButton(",
        "            &self.node,",
        "            &self.props.text,",
        "        );",
        "",
        "        VNode::VRef(self.node.clone())",
        "    }",
        "}",
        "",
        "fn render_BadButton(",
        "    node: &Node,",
        "    text: &String,",
        ") {",
        "    render_BadButton_js(",
        "        node,",
        "        JsValue::from_serde(text).unwrap(),",
        "    );",
        "}",
        "",
        "#[wasm_bindgen(inline_js = \"\\n            export function render_BadButton_js(node, text) {\\n                let element = React.createElement(\\n                    BadButtonLib.BadButton,\\n                    { text }\\n                );\\n                return ReactDOM.render(element, node);\\n            }\\n        \")]",
        "extern \"C\" {",
        "    fn render_BadButton_js(",
        "        node: &Node,",
        "        text: JsValue,",
        "    );",
        "}",
        "",
        "}",
    ]);
    assert_eq!(
        react_component_mod("bad_button", "BadButtonLib", succeeded(bad_button())),
        Ok(expected)
    );
}

#[test]
fn module_of_the_bad_button_parses_as_one_module() {
    let code = react_component_mod("bad_button", "BadButtonLib", succeeded(bad_button()))
        .expect("a module");
    let file = syn::parse_str::<syn::File>(&code).expect("source text of items");
    assert_eq!(file.items.len(), 1);
    let module = match &file.items[0] {
        syn::Item::Mod(module) => module,
        _ => panic!("the item is no module"),
    };
    assert_eq!(module.ident.to_string(), "bad_button");
    let (_, items) = module.content.as_ref().expect("a module with a body");
    let kinds: Vec<String> = items
        .iter()
        .map(|item| match item {
            syn::Item::Use(_) => "use".to_string(),
            syn::Item::Struct(item) => format!("struct {}", item.ident),
            syn::Item::Impl(_) => "impl".to_string(),
            syn::Item::Fn(item) => format!("fn {}", item.sig.ident),
            syn::Item::ForeignMod(_) => "foreign".to_string(),
            _ => "other".to_string(),
        })
        .collect();
    assert_eq!(
        kinds,
        vec![
            "use",
            "use",
            "use",
            "use",
            "use",
            "struct BadButtonProps",
            "struct BadButton",
            "impl",
            "fn render_BadButton",
            "foreign",
        ]
    );
}

#[test]
fn module_of_an_empty_schema_holds_the_imports_alone() {
    let schema = AnalyzerOutput { types: vec![], components: vec![] };
    let mut expected = lines(&PRELUDE);
    expected.push_str("}\n");
    assert_eq!(generate_module("bad_button", "Lib", &schema), Ok(expected));
}

#[test]
fn module_has_the_containers_first_and_then_the_components() {
    let p = named_type("P", vec![property("text", Some("string"), false)]);
    let q = named_type("Q", vec![property("count", Some("number"), true)]);
    let schema = AnalyzerOutput {
        types: vec![p.clone(), q.clone()],
        components: vec![component("B", "Q"), component("A", "P"), component("C", "Q")],
    };
    let mut expected = lines(&PRELUDE);
    for ty in [&p, &q] {
        expected.push_str(&component_props_struct(ty).expect("a container"));
        expected.push('\n');
    }
    for (name, ty) in [("B", &q), ("A", &p), ("C", &q)] {
        let (render_fn_name, bridge) =
            component_render_function("Lib", name, ty).expect("a bridge");
        expected.push_str(&component_struct_and_impl(name, ty, &render_fn_name));
        expected.push('\n');
        expected.push_str(&bridge);
        expected.push('\n');
    }
    expected.push_str("}\n");
    assert_eq!(generate_module("bad_button", "Lib", &schema), Ok(expected));
}

#[test]
fn module_has_one_container_for_types_of_one_name() {
    let first = named_type("P", vec![property("text", Some("string"), false)]);
    let second = named_type("P", vec![property("count", Some("number"), false)]);
    let schema = AnalyzerOutput {
        types: vec![first.clone(), second],
        components: vec![component("A", "P")],
    };
    let code = generate_module("bad_button", "Lib", &schema).expect("a module");
    assert_eq!(code.matches("pub struct P {").count(), 1);
    assert!(code.contains("    pub text: String,\n"));
    assert!(!code.contains("count"));
    let alone = AnalyzerOutput { types: vec![first], components: vec![component("A", "P")] };
    assert_eq!(Ok(code), generate_module("bad_button", "Lib", &alone));
}

#[test]
fn a_later_type_of_a_name_is_dropped_with_its_unsupported_properties() {
    let first = named_type("P", vec![property("text", Some("string"), false)]);
    let second = named_type("P", vec![property("cb", None, false)]);
    let schema = AnalyzerOutput { types: vec![first, second], components: vec![] };
    assert!(generate_module("bad_button", "Lib", &schema).is_ok());
}

#[test]
fn a_run_that_did_not_start_generates_nothing() {
    assert_eq!(
        react_component_mod("bad_button", "BadButtonLib", AnalyzerRun::NotStarted),
        Err(GenerationError::SchemaUnavailable)
    );
}

#[test]
fn a_run_that_failed_generates_nothing() {
    assert_eq!(
        react_component_mod(
            "bad_button",
            "BadButtonLib",
            AnalyzerRun::Exited { success: false, document: Some(bad_button()) }
        ),
        Err(GenerationError::SchemaUnavailable)
    );
}

#[test]
fn a_malformed_document_generates_nothing() {
    assert_eq!(
        react_component_mod(
            "bad_button",
            "BadButtonLib",
            AnalyzerRun::Exited { success: true, document: None }
        ),
        Err(GenerationError::SchemaMalformed)
    );
}

#[test]
fn an_unresolved_props_type_fails_the_whole_module() {
    let schema = AnalyzerOutput {
        types: vec![named_type("BadButtonProps", vec![property("text", Some("string"), false)])],
        components: vec![
            component("BadButton", "BadButtonProps"),
            component("Lost", "LostProps"),
            component("Other", "BadButtonProps"),
        ],
    };
    assert_eq!(
        generate_module("bad_button", "BadButtonLib", &schema),
        Err(unresolved("Lost", "LostProps"))
    );
    assert_eq!(
        react_component_mod("bad_button", "BadButtonLib", succeeded(schema)),
        Err(unresolved("Lost", "LostProps"))
    );
}

#[test]
fn the_first_unresolved_props_type_is_reported() {
    let schema = AnalyzerOutput {
        types: vec![],
        components: vec![component("A", "AProps"), component("B", "BProps")],
    };
    assert_eq!(generate_module("m", "Lib", &schema), Err(unresolved("A", "AProps")));
}

#[test]
fn an_unsupported_property_fails_the_whole_module() {
    let schema = AnalyzerOutput {
        types: vec![
            named_type("Good", vec![property("text", Some("string"), false)]),
            named_type("Bad", vec![property("items", Some("number[]"), false)]),
        ],
        components: vec![component("A", "Good")],
    };
    assert_eq!(
        generate_module("m", "Lib", &schema),
        Err(GenerationError::UnsupportedIntrinsicType {
            property: "items".to_string(),
            intrinsic_type: Some("number[]".to_string()),
        })
    );
}

#[test]
fn an_unresolved_property_fails_the_whole_module() {
    let schema = AnalyzerOutput {
        types: vec![named_type("Bad", vec![property("items", None, true)])],
        components: vec![],
    };
    assert_eq!(
        react_component_mod("m", "Lib", succeeded(schema)),
        Err(GenerationError::UnsupportedIntrinsicType {
            property: "items".to_string(),
            intrinsic_type: None,
        })
    );
}

#[test]
fn a_failing_container_is_reported_before_an_unresolved_props_type() {
    let schema = AnalyzerOutput {
        types: vec![named_type("Bad", vec![property("items", None, true)])],
        components: vec![component("Lost", "LostProps")],
    };
    assert_eq!(
        generate_module("m", "Lib", &schema),
        Err(GenerationError::UnsupportedIntrinsicType {
            property: "items".to_string(),
            intrinsic_type: None,
        })
    );
}

#[test]
fn component_code_is_the_wrapper_and_then_the_bridge() {
    let schema = bad_button();
    let props = &schema.types[0];
    let (render_fn_name, bridge) =
        component_render_function("BadButtonLib", "BadButton", props).expect("a bridge");
    let wrapper = component_struct_and_impl("BadButton", props, &render_fn_name);
    assert_eq!(
        reacty_yew::driver::component_code("BadButtonLib", &schema, &schema.components[0]),
        Ok(format!("{}\n{}\n", wrapper, bridge))
    );
    assert_eq!(
        reacty_yew::driver::component_code("BadButtonLib", &schema, &component("X", "Y")),
        Err(unresolved("X", "Y"))
    );
}
