//! The driver: from one run of the analyzer to one generated module, or to
//! the failure that ended the run.

use vstd::prelude::*;
use vstd::string::*;

use crate::bridge::{
    component_render_function, lemma_bridge_generated, render_fn_name_text,
    render_function_text,
};
use crate::container::{component_props_struct, container_text, lemma_container_generated};
use crate::error::{
    all_or_nothing, first_failure, lemma_all_or_nothing, lemma_all_or_nothing_next,
    lemma_failure_stays, lemma_first_failure, text_outcome, GenerationError,
    GenerationErrorView, TextOutcome,
};
use crate::schema::{
    distinct_by_name, first_named, has_name, lemma_distinct_by_name_keeps_first,
    lemma_first_named, names_distinct, types_view, AnalyzerOutput, AnalyzerOutputView, Component,
    ComponentView, Type, TypeView,
};
use crate::wrapper::{component_struct_and_impl, component_text};

verus! {

/// How one run of the analyzer ended, as its caller saw it.
#[derive(Debug, PartialEq, Eq)]
pub enum AnalyzerRun {
    /// The analyzer could not be started.
    NotStarted,
    /// The analyzer ran and came to an end. `success` says whether it
    /// reported success; `document` is the schema that it printed, or
    /// `None` where what it printed is no schema.
    Exited { success: bool, document: Option<AnalyzerOutput> },
}

/// An `AnalyzerRun` with its texts as sequences of characters.
pub enum AnalyzerRunView {
    NotStarted,
    Exited { success: bool, document: Option<AnalyzerOutputView> },
}

impl View for AnalyzerRun {
    type V = AnalyzerRunView;

    open spec fn view(&self) -> AnalyzerRunView {
        match self {
            AnalyzerRun::NotStarted => AnalyzerRunView::NotStarted,
            AnalyzerRun::Exited { success, document } => AnalyzerRunView::Exited {
                success: *success,
                document: match document {
                    Some(document) => Some(document@),
                    None => None,
                },
            },
        }
    }
}

/// What every generated module imports for the code in it.
pub const MODULE_IMPORTS: &'static str = "use wasm_bindgen::prelude::*;
use yew::prelude::*;
use yew::web_sys::{self, Node};
use yew::virtual_dom::VNode;
use serde::{Serialize, Deserialize};
";

/// The schema that a run of the analyzer yields: its document with each
/// type name once and the components as they are. A run that did not start
/// or did not succeed yields `SchemaUnavailable`, whatever it printed; one
/// that succeeded and printed no schema yields `SchemaMalformed`.
pub open spec fn ingested(run: AnalyzerRunView) -> Result<AnalyzerOutputView, GenerationErrorView> {
    match run {
        AnalyzerRunView::NotStarted => Err(GenerationErrorView::SchemaUnavailable),
        AnalyzerRunView::Exited { success, document } => {
            if !success {
                Err(GenerationErrorView::SchemaUnavailable)
            } else {
                match document {
                    None => Err(GenerationErrorView::SchemaMalformed),
                    Some(document) => Ok(
                        AnalyzerOutputView {
                            types: distinct_by_name(document.types),
                            components: document.components,
                        },
                    ),
                }
            }
        },
    }
}

/// The container of `ty`, followed by an empty line; or its failure.
pub open spec fn container_block(ty: TypeView) -> TextOutcome {
    match container_text(ty) {
        Ok(container) => Ok(container + "\n"@),
        Err(error) => Err(error),
    }
}

/// What generating a container for each of `types` gives, in order.
pub open spec fn container_blocks(types: Seq<TypeView>) -> Seq<TextOutcome> {
    types.map_values(|ty: TypeView| container_block(ty))
}

/// What is generated for one component: its wrapper component and its render
/// bridge, for the first of `types` that has the name `props_name`. Fails
/// with `UnresolvedPropsReference` where no type has that name.
pub open spec fn component_code_text(
    js_lib_name: Seq<char>,
    types: Seq<TypeView>,
    component: ComponentView,
) -> TextOutcome {
    match first_named(types, component.props_name) {
        None => Err(
            GenerationErrorView::UnresolvedPropsReference {
                component: component.name,
                props_name: component.props_name,
            },
        ),
        Some(i) => match render_function_text(js_lib_name, component.name, types[i]) {
            Err(error) => Err(error),
            Ok(bridge) => Ok(
                component_text(component.name, types[i], render_fn_name_text(component.name))
                    + "\n"@ + bridge + "\n"@,
            ),
        },
    }
}

/// What generating the code of each of `components` gives, in order.
pub open spec fn component_codes(
    js_lib_name: Seq<char>,
    types: Seq<TypeView>,
    components: Seq<ComponentView>,
) -> Seq<TextOutcome> {
    components.map_values(
        |component: ComponentView| component_code_text(js_lib_name, types, component),
    )
}

/// The module `mod_name` generated from `schema` for the foreign library
/// `js_lib_name`: the imports, a container for each type name, and a wrapper
/// component and a render bridge for each component, all or nothing. The
/// containers come first, and the first failure is the outcome.
pub open spec fn module_text(
    mod_name: Seq<char>,
    js_lib_name: Seq<char>,
    schema: AnalyzerOutputView,
) -> TextOutcome {
    match all_or_nothing(container_blocks(distinct_by_name(schema.types))) {
        Err(error) => Err(error),
        Ok(containers) => match all_or_nothing(
            component_codes(js_lib_name, schema.types, schema.components),
        ) {
            Err(error) => Err(error),
            Ok(components) => Ok(
                "mod "@ + mod_name + " {\n"@ + MODULE_IMPORTS@ + "\n"@ + containers + components
                    + "}\n"@,
            ),
        },
    }
}

/// The outcome of a whole run: the failure of the ingestion, or the module
/// generated from the schema that was ingested.
pub open spec fn generation(
    mod_name: Seq<char>,
    js_lib_name: Seq<char>,
    run: AnalyzerRunView,
) -> TextOutcome {
    match ingested(run) {
        Err(error) => Err(error),
        Ok(schema) => module_text(mod_name, js_lib_name, schema),
    }
}

/// Where the container of every type that deduplication keeps is generated,
/// so is the code of every component whose props type the schema holds: the
/// type that the component resolves to is one of those that are kept.
pub proof fn lemma_resolved_component_generated(
    js_lib_name: Seq<char>,
    types: Seq<TypeView>,
    component: ComponentView,
)
    requires
        all_or_nothing(container_blocks(distinct_by_name(types))) is Ok,
        first_named(types, component.props_name) is Some,
    ensures
        component_code_text(js_lib_name, types, component) is Ok,
{
    let kept = distinct_by_name(types);
    let i = first_named(types, component.props_name)->0;
    lemma_first_named(types, component.props_name);
    lemma_distinct_by_name_keeps_first(types);
    lemma_all_or_nothing(container_blocks(kept));
    assert(has_name(kept, types[i].name));
    let k = choose|k: int| 0 <= k < kept.len() && #[trigger] kept[k].name == types[i].name;
    assert(kept[k] == types[i]);
    assert(container_blocks(kept)[k] is Ok);
    lemma_container_generated(types[i]);
    lemma_bridge_generated(js_lib_name, component.name, types[i]);
}

/// A run that yields no schema generates nothing: where the analyzer did not
/// start or did not succeed the outcome is `SchemaUnavailable`, and where it
/// succeeded and printed no schema the outcome is `SchemaMalformed`.
pub proof fn lemma_failed_ingestion_generates_nothing(
    mod_name: Seq<char>,
    js_lib_name: Seq<char>,
    run: AnalyzerRunView,
)
    ensures
        run is NotStarted ==> generation(mod_name, js_lib_name, run) == Err::<
            Seq<char>,
            GenerationErrorView,
        >(GenerationErrorView::SchemaUnavailable),
        run matches AnalyzerRunView::Exited { success, .. } && !success ==> generation(
            mod_name,
            js_lib_name,
            run,
        ) == Err::<Seq<char>, GenerationErrorView>(GenerationErrorView::SchemaUnavailable),
        run matches AnalyzerRunView::Exited { success, document } && success && document
            is None ==> generation(mod_name, js_lib_name, run) == Err::<
            Seq<char>,
            GenerationErrorView,
        >(GenerationErrorView::SchemaMalformed),
{
}

/// A property without a known intrinsic type, in a type that deduplication
/// keeps, fails the whole module with `UnsupportedIntrinsicType`.
pub proof fn lemma_unsupported_property_fails_module(
    mod_name: Seq<char>,
    js_lib_name: Seq<char>,
    schema: AnalyzerOutputView,
    k: int,
    i: int,
)
    requires
        0 <= k < distinct_by_name(schema.types).len(),
        0 <= i < distinct_by_name(schema.types)[k].properties.len(),
        distinct_by_name(schema.types)[k].properties[i].intrinsic() is None,
    ensures
        module_text(mod_name, js_lib_name, schema) is Err,
        module_text(mod_name, js_lib_name, schema)->Err_0 is UnsupportedIntrinsicType,
{
    let kept = distinct_by_name(schema.types);
    let blocks = container_blocks(kept);
    lemma_container_generated(kept[k]);
    lemma_first_failure(blocks);
    assert(blocks[k] is Err);
    lemma_container_generated(kept[first_failure(blocks)->0]);
}

/// A component whose props type the schema does not hold fails the whole
/// module: nothing is generated, for the other components neither. Where
/// every container is generated, the failure is `UnresolvedPropsReference`;
/// where moreover every earlier component resolves, it is that of this
/// component.
pub proof fn lemma_unresolved_reference_fails_module(
    mod_name: Seq<char>,
    js_lib_name: Seq<char>,
    schema: AnalyzerOutputView,
    k: int,
)
    requires
        0 <= k < schema.components.len(),
        first_named(schema.types, schema.components[k].props_name) is None,
    ensures
        module_text(mod_name, js_lib_name, schema) is Err,
        all_or_nothing(container_blocks(distinct_by_name(schema.types))) is Ok ==> module_text(
            mod_name,
            js_lib_name,
            schema,
        )->Err_0 is UnresolvedPropsReference,
        all_or_nothing(container_blocks(distinct_by_name(schema.types))) is Ok && (forall|j: int|
            0 <= j < k ==> first_named(schema.types, (#[trigger] schema.components[j]).props_name)
                is Some) ==> module_text(mod_name, js_lib_name, schema) == Err::<
            Seq<char>,
            GenerationErrorView,
        >(
            GenerationErrorView::UnresolvedPropsReference {
                component: schema.components[k].name,
                props_name: schema.components[k].props_name,
            },
        ),
{
    let codes = component_codes(js_lib_name, schema.types, schema.components);
    lemma_first_failure(codes);
    assert(codes[k] is Err);
    if all_or_nothing(container_blocks(distinct_by_name(schema.types))) is Ok {
        assert forall|j: int|
            0 <= j < codes.len() && first_named(schema.types, schema.components[j].props_name)
                is Some implies (#[trigger] codes[j]) is Ok by {
            lemma_resolved_component_generated(js_lib_name, schema.types, schema.components[j]);
        }
    }
}

/// A module is generated exactly where every property of every type that
/// deduplication keeps has a known intrinsic type and the props type of
/// every component is in the schema: a generated module has no unresolved
/// type and no unresolved reference in it.
pub proof fn lemma_module_generated(
    mod_name: Seq<char>,
    js_lib_name: Seq<char>,
    schema: AnalyzerOutputView,
)
    ensures
        module_text(mod_name, js_lib_name, schema) is Ok <==> {
            &&& forall|k: int, i: int|
                0 <= k < distinct_by_name(schema.types).len() && 0 <= i < distinct_by_name(
                    schema.types,
                )[k].properties.len() ==> (#[trigger] distinct_by_name(
                    schema.types,
                )[k].properties[i]).intrinsic() is Some
            &&& forall|j: int|
                0 <= j < schema.components.len() ==> first_named(
                    schema.types,
                    (#[trigger] schema.components[j]).props_name,
                ) is Some
        },
{
    let kept = distinct_by_name(schema.types);
    let blocks = container_blocks(kept);
    let codes = component_codes(js_lib_name, schema.types, schema.components);
    lemma_all_or_nothing(blocks);
    lemma_all_or_nothing(codes);
    assert forall|k: int| 0 <= k < kept.len() implies ((#[trigger] blocks[k]) is Ok <==> (forall|
        i: int,
    | 0 <= i < kept[k].properties.len() ==> (#[trigger] kept[k].properties[i]).intrinsic()
        is Some)) by {
        lemma_container_generated(kept[k]);
    }
    if all_or_nothing(blocks) is Ok {
        assert forall|j: int|
            0 <= j < codes.len() && first_named(schema.types, schema.components[j].props_name)
                is Some implies (#[trigger] codes[j]) is Ok by {
            lemma_resolved_component_generated(js_lib_name, schema.types, schema.components[j]);
        }
    }
    if module_text(mod_name, js_lib_name, schema) is Ok {
        assert forall|k: int, i: int|
            0 <= k < kept.len() && 0 <= i < kept[k].properties.len() implies (
        #[trigger] kept[k].properties[i]).intrinsic() is Some by {
            assert(blocks[k] is Ok);
        }
        assert forall|j: int| 0 <= j < schema.components.len() implies first_named(
            schema.types,
            (#[trigger] schema.components[j]).props_name,
        ) is Some by {
            assert(codes[j] is Ok);
        }
    }
}

/// Takes in what a run of the analyzer yielded: the schema with each type
/// name once, the first type of a name staying, and with the components as
/// they came.
///
/// Fails with `SchemaUnavailable` where the analyzer did not start or did
/// not succeed, and with `SchemaMalformed` where it succeeded and printed no
/// schema.
pub fn ingest(run: AnalyzerRun) -> (outcome: Result<AnalyzerOutput, GenerationError>)
    ensures
        match outcome {
            Ok(schema) => {
                &&& ingested(run@) == Ok::<AnalyzerOutputView, GenerationErrorView>(schema@)
                &&& names_distinct(schema@.types)
            },
            Err(error) => ingested(run@) == Err::<AnalyzerOutputView, GenerationErrorView>(
                error@,
            ),
        },
{
    match run {
        AnalyzerRun::NotStarted => Err(GenerationError::SchemaUnavailable),
        AnalyzerRun::Exited { success, document } => {
            if !success {
                Err(GenerationError::SchemaUnavailable)
            } else {
                match document {
                    None => Err(GenerationError::SchemaMalformed),
                    Some(document) => {
                        let types = document.types();
                        Ok(AnalyzerOutput { types, components: document.components })
                    },
                }
            }
        },
    }
}

/// Writes the containers of `types`, in order.
fn write_containers(types: &Vec<Type>) -> (outcome: Result<String, GenerationError>)
    ensures
        text_outcome(outcome) == all_or_nothing(container_blocks(types_view(types@))),
{
    let ghost blocks = container_blocks(types_view(types@));
    let mut text = String::new();
    let mut i: usize = 0;
    while i < types.len()
        invariant
            i <= types.len(),
            blocks == container_blocks(types_view(types@)),
            all_or_nothing(blocks.take(i as int)) == Ok::<Seq<char>, GenerationErrorView>(text@),
        decreases types.len() - i,
    {
        proof {
            lemma_all_or_nothing_next(blocks, i as int);
            assert(blocks[i as int] == container_block(types@[i as int]@));
        }
        let ghost before = text@;
        match component_props_struct(&types[i]) {
            Ok(container) => {
                text.append(container.as_str());
                text.append("\n");
                assert(text@ =~= before + (container@ + "\n"@));
            },
            Err(error) => {
                proof {
                    lemma_failure_stays(blocks, i + 1);
                }
                return Err(error);
            },
        }
        i = i + 1;
    }
    proof {
        assert(blocks.take(i as int) =~= blocks);
    }
    Ok(text)
}

/// Generates the wrapper component and the render bridge of `component`,
/// with the first of `types` that has the name of its props type.
///
/// Fails with `UnresolvedPropsReference` where no type has that name, and
/// with `UnsupportedIntrinsicType` where a property of the type has no known
/// intrinsic type.
pub fn component_code(
    js_lib_name: &str,
    schema: &AnalyzerOutput,
    component: &Component,
) -> (outcome: Result<String, GenerationError>)
    ensures
        text_outcome(outcome) == component_code_text(js_lib_name@, schema@.types, component@),
{
    let props = match schema.props_type(component.props_name.as_str()) {
        Some(props) => props,
        None => {
            return Err(
                GenerationError::UnresolvedPropsReference {
                    component: component.name.clone(),
                    props_name: component.props_name.clone(),
                },
            );
        },
    };
    let (render_fn_name, render_fn) = match component_render_function(
        js_lib_name,
        component.name.as_str(),
        props,
    ) {
        Ok(bridge) => bridge,
        Err(error) => {
            return Err(error);
        },
    };
    let mut code = component_struct_and_impl(
        component.name.as_str(),
        props,
        render_fn_name.as_str(),
    );
    code.append("\n");
    code.append(render_fn.as_str());
    code.append("\n");
    Ok(code)
}

/// Writes what is generated for the components of `schema`, in order.
fn write_components(js_lib_name: &str, schema: &AnalyzerOutput) -> (outcome: Result<
    String,
    GenerationError,
>)
    ensures
        text_outcome(outcome) == all_or_nothing(
            component_codes(js_lib_name@, schema@.types, schema@.components),
        ),
{
    let ghost codes = component_codes(js_lib_name@, schema@.types, schema@.components);
    let mut text = String::new();
    let mut i: usize = 0;
    while i < schema.components.len()
        invariant
            i <= schema.components.len(),
            codes == component_codes(js_lib_name@, schema@.types, schema@.components),
            all_or_nothing(codes.take(i as int)) == Ok::<Seq<char>, GenerationErrorView>(text@),
        decreases schema.components.len() - i,
    {
        proof {
            lemma_all_or_nothing_next(codes, i as int);
            assert(codes[i as int] == component_code_text(
                js_lib_name@,
                schema@.types,
                schema.components@[i as int]@,
            ));
        }
        match component_code(js_lib_name, schema, &schema.components[i]) {
            Ok(code) => {
                text.append(code.as_str());
            },
            Err(error) => {
                proof {
                    lemma_failure_stays(codes, i + 1);
                }
                return Err(error);
            },
        }
        i = i + 1;
    }
    proof {
        assert(codes.take(i as int) =~= codes);
    }
    Ok(text)
}

/// Generates the module `mod_name` from `schema`, for the foreign library
/// whose global name is `global_name`: the source text of a module with a
/// properties container for each type name, the first type of a name
/// counting, and a wrapper component and a render bridge for each component.
///
/// Generation is all or nothing: the first failure is returned, and no text
/// with it. The containers are generated first, in the order of the types,
/// then the components in their order. A property without a known intrinsic
/// type fails its type with `UnsupportedIntrinsicType`; a component whose
/// props type the schema does not hold fails with
/// `UnresolvedPropsReference`.
pub fn generate_module(mod_name: &str, global_name: &str, schema: &AnalyzerOutput) -> (outcome:
    Result<String, GenerationError>)
    ensures
        text_outcome(outcome) == module_text(mod_name@, global_name@, schema@),
{
    let types = schema.types();
    let containers = match write_containers(&types) {
        Ok(containers) => containers,
        Err(error) => {
            return Err(error);
        },
    };
    let components = match write_components(global_name, schema) {
        Ok(components) => components,
        Err(error) => {
            return Err(error);
        },
    };
    let mut code = "mod ".to_owned();
    code.append(mod_name);
    code.append(" {\n");
    code.append(MODULE_IMPORTS);
    code.append("\n");
    code.append(containers.as_str());
    code.append(components.as_str());
    code.append("}\n");
    Ok(code)
}

/// Generates the module `mod_name` from one run of the analyzer, for the
/// foreign library whose global name is `global_name`.
///
/// Where the run yields no schema, the failure of the ingestion is returned
/// and nothing is generated; else the outcome is that of `generate_module`
/// on the schema taken in.
pub fn react_component_mod(mod_name: &str, global_name: &str, run: AnalyzerRun) -> (outcome:
    Result<String, GenerationError>)
    ensures
        text_outcome(outcome) == generation(mod_name@, global_name@, run@),
{
    match ingest(run) {
        Ok(schema) => generate_module(mod_name, global_name, &schema),
        Err(error) => Err(error),
    }
}

} // verus!
