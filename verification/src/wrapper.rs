//! The wrapper component: the native component that owns a mount point and
//! the current properties, and has the foreign component rendered into the
//! mount point on every render.

use vstd::prelude::*;
use vstd::string::*;

use crate::schema::{Type, TypePropertyView, TypeView};
use crate::text::{concat_all, lemma_concat_pieces_step, lemma_pieces_in_order, stands_before};

verus! {

/// The methods that every wrapper component has, up to the call of its
/// render function. `create` makes a new `div` that is attached nowhere and
/// keeps it as the mount point, beside the properties that it is given.
/// `change` replaces the properties and always asks for a render. `view`
/// begins here.
pub const WRAPPER_METHODS: &'static str = "
    fn create(props: Self::Properties, _link: ComponentLink<Self>) -> Self {
        Self {
            node: Node::from(
                web_sys::window()
                    .unwrap()
                    .document()
                    .unwrap()
                    .create_element(\"div\")
                    .unwrap(),
            ),
            props,
        }
    }

    fn change(&mut self, new_props: Self::Properties) -> ShouldRender {
        self.props = new_props;
        true
    }

    fn update(&mut self, msg: Self::Message) -> ShouldRender {
        true
    }

    fn view(&self) -> Html {
";

/// The end of every wrapper component: after the call of the render
/// function, `view` yields the mount point itself as what to show.
pub const WRAPPER_END: &'static str = "
        VNode::VRef(self.node.clone())
    }
}
";

/// The argument of the render call that hands on the stored value of
/// `property`.
pub open spec fn stored_property(property: TypePropertyView) -> Seq<char> {
    "            &self.props."@ + property.name + ",\n"@
}

/// The arguments of the render call, one per property, in order.
pub open spec fn stored_properties(properties: Seq<TypePropertyView>) -> Seq<Seq<char>> {
    properties.map_values(|property: TypePropertyView| stored_property(property))
}

/// The wrapper component of the component `component`, whose properties
/// `props` describes and whose native render function is `render_fn_name`:
/// a struct that holds a mount point and the properties, and its impl of
/// `Component`, whose `view` calls the render function with the mount point
/// and a reference to each property's value, in the order of `props`.
#[verifier::opaque]
pub open spec fn component_text(
    component: Seq<char>,
    props: TypeView,
    render_fn_name: Seq<char>,
) -> Seq<char> {
    "pub struct "@ + component + " {\n"@
        + "    node: Node,\n"@
        + "    props: "@ + props.name + ",\n"@
        + "}\n"@
        + "\n"@
        + "impl Component for "@ + component + " {\n"@
        + "    type Message = ();\n"@
        + "    type Properties = "@ + props.name + ";\n"@
        + WRAPPER_METHODS@
        + "        "@ + render_fn_name + "(\n"@
        + "            &self.node,\n"@
        + concat_all(stored_properties(props.properties))
        + "        );\n"@
        + WRAPPER_END@
}

/// The render call hands on the properties in the order of the props type:
/// there is one argument per property, argument `i` is that of property
/// `i`, and the argument of an earlier property stands before that of a
/// later one.
pub proof fn lemma_render_call_follows_property_order(props: TypeView, i: int, j: int)
    requires
        0 <= i < j < props.properties.len(),
    ensures
        stored_properties(props.properties).len() == props.properties.len(),
        stored_properties(props.properties)[i] == stored_property(props.properties[i]),
        stored_properties(props.properties)[j] == stored_property(props.properties[j]),
        stands_before(stored_properties(props.properties), i, j),
{
    lemma_pieces_in_order(stored_properties(props.properties), i, j);
}

/// Writes the arguments of the render call.
fn write_stored_properties(props: &Type) -> (text: String)
    ensures
        text@ == concat_all(stored_properties(props@.properties)),
{
    let ghost all = props@.properties;
    let mut text = String::new();
    let mut i: usize = 0;
    while i < props.properties.len()
        invariant
            i <= props.properties.len(),
            all == props@.properties,
            text@ == concat_all(stored_properties(all.take(i as int))),
        decreases props.properties.len() - i,
    {
        let property = &props.properties[i];
        proof {
            lemma_concat_pieces_step(
                |property: TypePropertyView| stored_property(property),
                all,
                i as int,
            );
        }
        text.append("            &self.props.");
        text.append(property.name.as_str());
        text.append(",\n");
        i = i + 1;
    }
    proof {
        assert(all.take(i as int) =~= all);
    }
    text
}

/// Generates the wrapper component of the component `component_name`, whose
/// properties `props` describes and whose native render function is
/// `render_fn_name`: the source text of the struct and of its `Component`
/// impl.
pub fn component_struct_and_impl(component_name: &str, props: &Type, render_fn_name: &str) -> (code:
    String)
    ensures
        code@ == component_text(component_name@, props@, render_fn_name@),
{
    proof {
        reveal(component_text);
    }
    let stored = write_stored_properties(props);
    let mut code = "pub struct ".to_owned();
    code.append(component_name);
    code.append(" {\n");
    code.append("    node: Node,\n");
    code.append("    props: ");
    code.append(props.name.as_str());
    code.append(",\n");
    code.append("}\n");
    code.append("\n");
    code.append("impl Component for ");
    code.append(component_name);
    code.append(" {\n");
    code.append("    type Message = ();\n");
    code.append("    type Properties = ");
    code.append(props.name.as_str());
    code.append(";\n");
    code.append(WRAPPER_METHODS);
    code.append("        ");
    code.append(render_fn_name);
    code.append("(\n");
    code.append("            &self.node,\n");
    code.append(stored.as_str());
    code.append("        );\n");
    code.append(WRAPPER_END);
    code
}

} // verus!
