//! The render bridge of a component: a native function that converts each
//! property and hands it on, and the foreign function that it calls, which
//! mounts the foreign component with those values.
//!
//! The values cross the boundary by position. Both sides take their order
//! from the one sequence of properties of the props type.

use vstd::prelude::*;
use vstd::string::*;

use crate::error::{
    all_or_nothing, lemma_all_or_nothing, lemma_all_or_nothing_next, lemma_failure_stays,
    lemma_first_failure, text_outcome, texts_of, GenerationError, GenerationErrorView,
    TextOutcome,
};
use crate::intrinsic::lemma_intrinsic_vocabulary;
use crate::schema::{Type, TypePropertyView, TypeView};
use crate::text::{
    concat_all, join, join_text, lemma_concat_pieces_step, lemma_pieces_in_order, stands_before,
    string_literal, string_literal_text,
};

verus! {

/// The name of the native render function of the component `component`.
pub open spec fn render_fn_name_text(component: Seq<char>) -> Seq<char> {
    "render_"@ + component
}

/// The name of the foreign render function of the component `component`.
pub open spec fn render_fn_js_name_text(component: Seq<char>) -> Seq<char> {
    "render_"@ + component + "_js"@
}

/// The names of `properties`, in order.
pub open spec fn property_names(properties: Seq<TypePropertyView>) -> Seq<Seq<char>> {
    properties.map_values(|property: TypePropertyView| property.name)
}

/// The script that defines the foreign render function: it takes the mount
/// point and one value per property, in order, creates the component
/// `component` of the library `js_lib_name` with each value under its
/// property's name, and renders it into the mount point.
#[verifier::opaque]
pub open spec fn inline_script_text(
    js_lib_name: Seq<char>,
    component: Seq<char>,
    properties: Seq<TypePropertyView>,
) -> Seq<char> {
    "\n"@
        + "            export function "@ + render_fn_js_name_text(component) + "(node, "@
        + join_text(property_names(properties), ", "@) + ") {\n"@
        + "                let element = React.createElement(\n"@
        + "                    "@ + js_lib_name + "."@ + component + ",\n"@
        + "                    { "@ + join_text(property_names(properties), ", "@) + " }\n"@
        + "                );\n"@
        + "                return ReactDOM.render(element, node);\n"@
        + "            }\n"@
        + "        "@
}

/// The parameter of the native render function that takes a reference to
/// the value of `property`, or the failure where the property has no known
/// intrinsic type.
pub open spec fn native_parameter(property: TypePropertyView) -> TextOutcome {
    match property.value_type() {
        Ok(value_type) => Ok("    "@ + property.name + ": &"@ + value_type + ",\n"@),
        Err(error) => Err(error),
    }
}

/// The argument that the native render function hands on for `property`:
/// the conversion of the parameter of its name; or the failure where the
/// property has no known intrinsic type.
pub open spec fn bridge_argument(property: TypePropertyView) -> TextOutcome {
    match property.conversion(property.name) {
        Ok(conversion) => Ok("        "@ + conversion + ",\n"@),
        Err(error) => Err(error),
    }
}

/// The parameter of the foreign render function that takes `property`.
pub open spec fn foreign_parameter(property: TypePropertyView) -> Seq<char> {
    "        "@ + property.name + ": JsValue,\n"@
}

/// What writing a native parameter for each of `properties` gives, in order.
pub open spec fn native_parameters(properties: Seq<TypePropertyView>) -> Seq<TextOutcome> {
    properties.map_values(|property: TypePropertyView| native_parameter(property))
}

/// What writing an argument of the call across the boundary for each of
/// `properties` gives, in order.
pub open spec fn bridge_arguments(properties: Seq<TypePropertyView>) -> Seq<TextOutcome> {
    properties.map_values(|property: TypePropertyView| bridge_argument(property))
}

/// The parameters of the foreign render function, one per property, in order.
pub open spec fn foreign_parameters(properties: Seq<TypePropertyView>) -> Seq<Seq<char>> {
    properties.map_values(|property: TypePropertyView| foreign_parameter(property))
}

/// The native render function of the component `component`: it takes the
/// mount point and then `parameters`, and calls the foreign render function
/// with the mount point and then `arguments`.
#[verifier::opaque]
pub open spec fn native_render_fn_text(
    component: Seq<char>,
    parameters: Seq<char>,
    arguments: Seq<char>,
) -> Seq<char> {
    "fn "@ + render_fn_name_text(component) + "(\n"@
        + "    node: &Node,\n"@
        + parameters
        + ") {\n"@
        + "    "@ + render_fn_js_name_text(component) + "(\n"@
        + "        node,\n"@
        + arguments
        + "    );\n"@
        + "}\n"@
}

/// The declaration of the foreign render function of the component
/// `component`, with the script that defines it, as a string literal.
#[verifier::opaque]
pub open spec fn foreign_render_fn_text(
    js_lib_name: Seq<char>,
    component: Seq<char>,
    properties: Seq<TypePropertyView>,
) -> Seq<char> {
    "#[wasm_bindgen(inline_js = "@ + string_literal_text(
        inline_script_text(js_lib_name, component, properties),
    ) + ")]\n"@
        + "extern \"C\" {\n"@
        + "    fn "@ + render_fn_js_name_text(component) + "(\n"@
        + "        node: &Node,\n"@
        + concat_all(foreign_parameters(properties))
        + "    );\n"@
        + "}\n"@
}

/// The render bridge of the component `component` of the library
/// `js_lib_name`, whose properties `props` describes: the native render
/// function with a parameter and an argument for each property, all or
/// nothing, then an empty line and the declaration of the foreign render
/// function.
pub open spec fn render_function_text(
    js_lib_name: Seq<char>,
    component: Seq<char>,
    props: TypeView,
) -> TextOutcome {
    match all_or_nothing(native_parameters(props.properties)) {
        Err(error) => Err(error),
        Ok(parameters) => match all_or_nothing(bridge_arguments(props.properties)) {
            Err(error) => Err(error),
            Ok(arguments) => Ok(
                native_render_fn_text(component, parameters, arguments) + "\n"@
                    + foreign_render_fn_text(js_lib_name, component, props.properties),
            ),
        },
    }
}

/// Both sides of the bridge take the properties in the order of the props
/// type. The native parameters, the arguments of the call across the
/// boundary, the foreign parameters and the names in the script are each one
/// entry per property; entry `i` is that of property `i`; and in the text of
/// each side the entry of an earlier property stands before that of a later
/// one.
pub proof fn lemma_bridge_follows_property_order(props: TypeView, i: int, j: int)
    requires
        0 <= i < j < props.properties.len(),
    ensures
        native_parameters(props.properties).len() == props.properties.len(),
        native_parameters(props.properties)[i] == native_parameter(props.properties[i]),
        native_parameters(props.properties)[j] == native_parameter(props.properties[j]),
        stands_before(texts_of(native_parameters(props.properties)), i, j),
        bridge_arguments(props.properties).len() == props.properties.len(),
        bridge_arguments(props.properties)[i] == bridge_argument(props.properties[i]),
        bridge_arguments(props.properties)[j] == bridge_argument(props.properties[j]),
        stands_before(texts_of(bridge_arguments(props.properties)), i, j),
        foreign_parameters(props.properties).len() == props.properties.len(),
        foreign_parameters(props.properties)[i] == foreign_parameter(props.properties[i]),
        foreign_parameters(props.properties)[j] == foreign_parameter(props.properties[j]),
        stands_before(foreign_parameters(props.properties), i, j),
        property_names(props.properties).len() == props.properties.len(),
        property_names(props.properties)[i] == props.properties[i].name,
        property_names(props.properties)[j] == props.properties[j].name,
{
    lemma_pieces_in_order(texts_of(native_parameters(props.properties)), i, j);
    lemma_pieces_in_order(texts_of(bridge_arguments(props.properties)), i, j);
    lemma_pieces_in_order(foreign_parameters(props.properties), i, j);
}

/// Every property is handed across as one value. For an `any` property
/// that the host may leave out, the native render function takes a reference
/// to an `Option<JsValue>` and hands on the value that is there, or `null`
/// where there is none: one `JsValue`, as the foreign parameter is declared.
/// For a required one it takes a reference to a `JsValue` and hands it on as
/// it is.
pub proof fn lemma_any_property_crosses_as_one_value(property: TypePropertyView)
    requires
        property.intrinsic_type == Some("any"@),
    ensures
        foreign_parameter(property) == "        "@ + property.name + ": JsValue,\n"@,
        property.optional ==> native_parameter(property) == Ok::<Seq<char>, GenerationErrorView>(
            "    "@ + property.name + ": &"@ + ("Option<"@ + "JsValue"@ + ">"@) + ",\n"@,
        ),
        property.optional ==> bridge_argument(property) == Ok::<Seq<char>, GenerationErrorView>(
            "        "@ + (property.name + ".to_owned().unwrap_or_else(JsValue::null)"@) + ",\n"@,
        ),
        !property.optional ==> native_parameter(property) == Ok::<Seq<char>, GenerationErrorView>(
            "    "@ + property.name + ": &"@ + "JsValue"@ + ",\n"@,
        ),
        !property.optional ==> bridge_argument(property) == Ok::<Seq<char>, GenerationErrorView>(
            "        "@ + (property.name + ".to_owned()"@) + ",\n"@,
        ),
{
    lemma_intrinsic_vocabulary();
}

/// A property that is encoded on its way across goes through the encoding
/// whether the host may leave it out or not. The encoding yields one value
/// and encodes an absent value as `null`.
pub proof fn lemma_encoded_property_crosses_as_one_value(property: TypePropertyView)
    requires
        property.intrinsic() is Some,
        property.intrinsic_type != Some("any"@),
    ensures
        foreign_parameter(property) == "        "@ + property.name + ": JsValue,\n"@,
        bridge_argument(property) == Ok::<Seq<char>, GenerationErrorView>(
            "        "@ + ("JsValue::from_serde("@ + property.name + ").unwrap()"@) + ",\n"@,
        ),
{
    lemma_intrinsic_vocabulary();
}

/// A bridge is generated exactly where every property of the props type has
/// a known intrinsic type, and every failure is an
/// `UnsupportedIntrinsicType`.
pub proof fn lemma_bridge_generated(js_lib_name: Seq<char>, component: Seq<char>, props: TypeView)
    ensures
        render_function_text(js_lib_name, component, props) is Ok <==> (forall|k: int|
            0 <= k < props.properties.len() ==> (#[trigger] props.properties[k]).intrinsic()
                is Some),
        render_function_text(js_lib_name, component, props) is Err ==> render_function_text(
            js_lib_name,
            component,
            props,
        )->Err_0 is UnsupportedIntrinsicType,
{
    let parameters = native_parameters(props.properties);
    let arguments = bridge_arguments(props.properties);
    lemma_all_or_nothing(parameters);
    lemma_all_or_nothing(arguments);
    lemma_first_failure(parameters);
    lemma_first_failure(arguments);
    assert forall|k: int| 0 <= k < props.properties.len() implies {
        &&& (#[trigger] parameters[k]) is Ok <==> props.properties[k].intrinsic() is Some
        &&& (#[trigger] arguments[k]) is Ok <==> props.properties[k].intrinsic() is Some
    } by {}
    if render_function_text(js_lib_name, component, props) is Ok {
        assert forall|k: int| 0 <= k < props.properties.len() implies (
        #[trigger] props.properties[k]).intrinsic() is Some by {
            assert(parameters[k] is Ok);
        }
    }
}

/// Writes the name of the native render function of `component_name`.
pub fn render_fn_name(component_name: &str) -> (name: String)
    ensures
        name@ == render_fn_name_text(component_name@),
{
    let mut name = "render_".to_owned();
    name.append(component_name);
    name
}

/// Writes the name of the foreign render function of `component_name`.
pub fn render_fn_js_name(component_name: &str) -> (name: String)
    ensures
        name@ == render_fn_js_name_text(component_name@),
{
    let mut name = "render_".to_owned();
    name.append(component_name);
    name.append("_js");
    name
}

/// Lists the names of the properties of `props`, in order.
pub fn names_of_properties(props: &Type) -> (names: Vec<String>)
    ensures
        names.deep_view() == property_names(props@.properties),
{
    let mut names: Vec<String> = Vec::new();
    let mut i: usize = 0;
    while i < props.properties.len()
        invariant
            i <= props.properties.len(),
            names.deep_view() == property_names(props@.properties).take(i as int),
        decreases props.properties.len() - i,
    {
        assert(names.deep_view().len() == i);
        names.push(props.properties[i].name_ident());
        i = i + 1;
    }
    names
}

/// Writes the script that defines the foreign render function.
pub fn inline_script(js_lib_name: &str, component_name: &str, props: &Type) -> (script: String)
    ensures
        script@ == inline_script_text(js_lib_name@, component_name@, props@.properties),
{
    proof {
        reveal(inline_script_text);
    }
    let names = join(&names_of_properties(props), ", ");
    let mut script = "\n".to_owned();
    script.append("            export function ");
    script.append(render_fn_js_name(component_name).as_str());
    script.append("(node, ");
    script.append(names.as_str());
    script.append(") {\n");
    script.append("                let element = React.createElement(\n");
    script.append("                    ");
    script.append(js_lib_name);
    script.append(".");
    script.append(component_name);
    script.append(",\n");
    script.append("                    { ");
    script.append(names.as_str());
    script.append(" }\n");
    script.append("                );\n");
    script.append("                return ReactDOM.render(element, node);\n");
    script.append("            }\n");
    script.append("        ");
    script
}

/// Writes the parameters of the native render function.
fn write_native_parameters(props: &Type) -> (outcome: Result<String, GenerationError>)
    ensures
        text_outcome(outcome) == all_or_nothing(native_parameters(props@.properties)),
{
    let ghost parameters = native_parameters(props@.properties);
    let mut text = String::new();
    let mut i: usize = 0;
    while i < props.properties.len()
        invariant
            i <= props.properties.len(),
            parameters == native_parameters(props@.properties),
            all_or_nothing(parameters.take(i as int)) == Ok::<Seq<char>, GenerationErrorView>(
                text@,
            ),
        decreases props.properties.len() - i,
    {
        let property = &props.properties[i];
        let ghost before = text@;
        proof {
            lemma_all_or_nothing_next(parameters, i as int);
            assert(parameters[i as int] == native_parameter(property@));
        }
        let value_type = match property.value_type() {
            Ok(value_type) => value_type,
            Err(error) => {
                proof {
                    lemma_failure_stays(parameters, i + 1);
                }
                return Err(error);
            },
        };
        text.append("    ");
        text.append(property.name.as_str());
        text.append(": &");
        text.append(value_type.as_str());
        text.append(",\n");
        assert(text@ =~= before + native_parameter(property@)->Ok_0);
        i = i + 1;
    }
    proof {
        assert(parameters.take(i as int) =~= parameters);
    }
    Ok(text)
}

/// Writes the arguments of the call across the boundary.
fn write_bridge_arguments(props: &Type) -> (outcome: Result<String, GenerationError>)
    ensures
        text_outcome(outcome) == all_or_nothing(bridge_arguments(props@.properties)),
{
    let ghost arguments = bridge_arguments(props@.properties);
    let mut text = String::new();
    let mut i: usize = 0;
    while i < props.properties.len()
        invariant
            i <= props.properties.len(),
            arguments == bridge_arguments(props@.properties),
            all_or_nothing(arguments.take(i as int)) == Ok::<Seq<char>, GenerationErrorView>(
                text@,
            ),
        decreases props.properties.len() - i,
    {
        let property = &props.properties[i];
        let ghost before = text@;
        proof {
            lemma_all_or_nothing_next(arguments, i as int);
            assert(arguments[i as int] == bridge_argument(property@));
        }
        let name = property.name_ident();
        let conversion = match property.conversion_to_js_type(name.as_str()) {
            Ok(conversion) => conversion,
            Err(error) => {
                proof {
                    lemma_failure_stays(arguments, i + 1);
                }
                return Err(error);
            },
        };
        text.append("        ");
        text.append(conversion.as_str());
        text.append(",\n");
        assert(text@ =~= before + bridge_argument(property@)->Ok_0);
        i = i + 1;
    }
    proof {
        assert(arguments.take(i as int) =~= arguments);
    }
    Ok(text)
}

/// Writes the parameters of the foreign render function.
fn write_foreign_parameters(props: &Type) -> (text: String)
    ensures
        text@ == concat_all(foreign_parameters(props@.properties)),
{
    let ghost all = props@.properties;
    let mut text = String::new();
    let mut i: usize = 0;
    while i < props.properties.len()
        invariant
            i <= props.properties.len(),
            all == props@.properties,
            text@ == concat_all(foreign_parameters(all.take(i as int))),
        decreases props.properties.len() - i,
    {
        let property = &props.properties[i];
        let ghost before = text@;
        proof {
            lemma_concat_pieces_step(
                |property: TypePropertyView| foreign_parameter(property),
                all,
                i as int,
            );
            assert(property@ == all[i as int]);
        }
        text.append("        ");
        text.append(property.name.as_str());
        text.append(": JsValue,\n");
        assert(text@ =~= before + foreign_parameter(property@));
        i = i + 1;
    }
    proof {
        assert(all.take(i as int) =~= all);
    }
    text
}

/// Writes the native render function of the component `component_name`,
/// with the parameters `parameters` and the arguments `arguments`.
fn write_native_render_fn(component_name: &str, parameters: &str, arguments: &str) -> (code: String)
    ensures
        code@ == native_render_fn_text(component_name@, parameters@, arguments@),
{
    proof {
        reveal(native_render_fn_text);
    }
    let mut code = "fn ".to_owned();
    code.append(render_fn_name(component_name).as_str());
    code.append("(\n");
    code.append("    node: &Node,\n");
    code.append(parameters);
    code.append(") {\n");
    code.append("    ");
    code.append(render_fn_js_name(component_name).as_str());
    code.append("(\n");
    code.append("        node,\n");
    code.append(arguments);
    code.append("    );\n");
    code.append("}\n");
    code
}

/// Writes the declaration of the foreign render function of the component
/// `component_name`, with the script that defines it.
fn write_foreign_render_fn(js_lib_name: &str, component_name: &str, props: &Type) -> (code: String)
    ensures
        code@ == foreign_render_fn_text(js_lib_name@, component_name@, props@.properties),
{
    proof {
        reveal(foreign_render_fn_text);
    }
    let script = string_literal(inline_script(js_lib_name, component_name, props).as_str());
    let parameters = write_foreign_parameters(props);
    let mut code = "#[wasm_bindgen(inline_js = ".to_owned();
    code.append(script.as_str());
    code.append(")]\n");
    code.append("extern \"C\" {\n");
    code.append("    fn ");
    code.append(render_fn_js_name(component_name).as_str());
    code.append("(\n");
    code.append("        node: &Node,\n");
    code.append(parameters.as_str());
    code.append("    );\n");
    code.append("}\n");
    code
}

/// Generates the render bridge of the component `component_name` of the
/// foreign library `js_lib_name`, whose properties `props` describes.
///
/// Returns the name of the native render function and the source text of
/// the bridge: the native function, which takes the mount point and a
/// reference to each property's value, converts each and calls the foreign
/// function; and the declaration of the foreign function together with the
/// script that defines it. On both sides the values follow the properties
/// of `props` in their order.
///
/// Fails with `UnsupportedIntrinsicType`, for the first such property, where
/// a property has no known intrinsic type.
pub fn component_render_function(js_lib_name: &str, component_name: &str, props: &Type) -> (outcome:
    Result<(String, String), GenerationError>)
    ensures
        match outcome {
            Ok((name, code)) => {
                &&& name@ == render_fn_name_text(component_name@)
                &&& render_function_text(js_lib_name@, component_name@, props@) == Ok::<
                    Seq<char>,
                    GenerationErrorView,
                >(code@)
            },
            Err(error) => render_function_text(js_lib_name@, component_name@, props@) == Err::<
                Seq<char>,
                GenerationErrorView,
            >(error@),
        },
{
    let parameters = match write_native_parameters(props) {
        Ok(parameters) => parameters,
        Err(error) => {
            return Err(error);
        },
    };
    let arguments = match write_bridge_arguments(props) {
        Ok(arguments) => arguments,
        Err(error) => {
            return Err(error);
        },
    };
    let mut code = write_native_render_fn(component_name, parameters.as_str(), arguments.as_str());
    code.append("\n");
    code.append(write_foreign_render_fn(js_lib_name, component_name, props).as_str());
    Ok((render_fn_name(component_name), code))
}

} // verus!
