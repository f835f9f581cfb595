//! The properties container of a type: a struct with one field per property,
//! in the order of the schema. It can be cloned, serves the host framework as
//! the properties of a component, and can be serialized: its serializer
//! encodes the fields whose values are encoded on their way across the
//! boundary and leaves out those that are boundary-safe already.

use vstd::prelude::*;
use vstd::string::*;

use crate::error::{
    all_or_nothing, lemma_all_or_nothing, lemma_all_or_nothing_next, lemma_failure_stays,
    lemma_first_failure, text_outcome, texts_of, GenerationError, GenerationErrorView,
    TextOutcome,
};
use crate::intrinsic::lemma_intrinsic_vocabulary;
use crate::schema::{Type, TypeProperty, TypePropertyView, TypeView};
use crate::text::{lemma_pieces_in_order, stands_before};

verus! {

/// The mark of a field that the host may leave out: the field is absent
/// then. A required field has no such mark, and no default.
pub open spec fn default_mark(optional: bool) -> Seq<char> {
    if optional {
        "    #[prop_or_default]\n"@
    } else {
        Seq::empty()
    }
}

/// The mark of a field whose value is not encoded on its way across the
/// boundary: the serializer of the container leaves the field out, since
/// its type has no encoding. A field whose value is encoded has no such mark.
pub open spec fn serializer_mark(encoded: bool) -> Seq<char> {
    if encoded {
        Seq::empty()
    } else {
        "    #[serde(skip_serializing)]\n"@
    }
}

/// The field that holds `property`, or the failure where the property has no
/// known intrinsic type. A required property is a plain field of its native
/// type. An optional one is an `Option` of it, marked so that it is absent
/// where the host leaves it out. A property that is boundary-safe already is
/// marked so that the serializer of the container leaves it out.
pub open spec fn container_field_text(property: TypePropertyView) -> TextOutcome {
    match property.intrinsic() {
        Some(intrinsic) => match property.value_type() {
            Ok(value_type) => Ok(
                default_mark(property.optional) + serializer_mark(intrinsic.encoded())
                    + "    pub "@ + property.name + ": "@ + value_type + ",\n"@,
            ),
            Err(error) => Err(error),
        },
        None => Err(property.unsupported()),
    }
}

/// What writing a field for each of `properties` gives, in order.
pub open spec fn container_fields(properties: Seq<TypePropertyView>) -> Seq<TextOutcome> {
    properties.map_values(|property: TypePropertyView| container_field_text(property))
}

/// The properties container of the type `props`: a struct of its name that
/// can be cloned, serves as the properties of a component and can be
/// serialized, with a field for each property, all or nothing.
pub open spec fn container_text(props: TypeView) -> TextOutcome {
    match all_or_nothing(container_fields(props.properties)) {
        Ok(fields) => Ok(
            "#[derive(Clone, Properties, Serialize)]\n"@ + "pub struct "@ + props.name + " {\n"@
                + fields + "}\n"@,
        ),
        Err(error) => Err(error),
    }
}

/// The field of an `any` property is left out by the serializer of the
/// container, whether the property is optional or not; the other fields are
/// serialized. So the serializer asks for an encoding of the encoded types
/// alone.
pub proof fn lemma_serializer_leaves_out_any_fields(property: TypePropertyView)
    requires
        property.intrinsic() is Some,
    ensures
        property.intrinsic_type == Some("any"@) ==> container_field_text(property) == Ok::<
            Seq<char>,
            GenerationErrorView,
        >(
            default_mark(property.optional) + "    #[serde(skip_serializing)]\n"@ + "    pub "@
                + property.name + ": "@ + property.value_type()->Ok_0 + ",\n"@,
        ),
        property.intrinsic_type != Some("any"@) ==> container_field_text(property) == Ok::<
            Seq<char>,
            GenerationErrorView,
        >(
            default_mark(property.optional) + "    pub "@ + property.name + ": "@
                + property.value_type()->Ok_0 + ",\n"@,
        ),
{
    lemma_intrinsic_vocabulary();
    if property.intrinsic_type != Some("any"@) {
        assert(default_mark(property.optional) + Seq::<char>::empty() =~= default_mark(
            property.optional,
        ));
    }
}

/// A property whose intrinsic type the analyzer could not resolve fails the
/// container of its type with `UnsupportedIntrinsicType`: no container is
/// generated for the type, whatever its other properties are.
pub proof fn lemma_unresolved_property_fails_container(props: TypeView, i: int)
    requires
        0 <= i < props.properties.len(),
        props.properties[i].intrinsic_type is None,
    ensures
        container_text(props) is Err,
        container_text(props)->Err_0 is UnsupportedIntrinsicType,
{
    lemma_container_generated(props);
    assert(container_fields(props.properties)[i] is Err);
}

/// The first property without a known intrinsic type decides: the container
/// fails with `UnsupportedIntrinsicType`, and the failure carries the name
/// of that property and the type name that it was given.
pub proof fn lemma_unsupported_property_fails_container(props: TypeView, i: int)
    requires
        0 <= i < props.properties.len(),
        props.properties[i].intrinsic() is None,
        forall|j: int| 0 <= j < i ==> (#[trigger] props.properties[j]).intrinsic() is Some,
    ensures
        container_text(props) == Err::<Seq<char>, GenerationErrorView>(
            GenerationErrorView::UnsupportedIntrinsicType {
                property: props.properties[i].name,
                intrinsic_type: props.properties[i].intrinsic_type,
            },
        ),
{
    let fields = container_fields(props.properties);
    lemma_all_or_nothing(fields);
    assert(fields[i] is Err);
    assert forall|j: int| 0 <= j < i implies (#[trigger] fields[j]) is Ok by {
        assert(props.properties[j].intrinsic() is Some);
    }
}

/// A container is generated exactly where every property of the type has a
/// known intrinsic type, and every failure is an `UnsupportedIntrinsicType`.
pub proof fn lemma_container_generated(props: TypeView)
    ensures
        container_text(props) is Ok <==> (forall|k: int|
            0 <= k < props.properties.len() ==> (#[trigger] props.properties[k]).intrinsic()
                is Some),
        container_text(props) is Err ==> container_text(props)->Err_0 is UnsupportedIntrinsicType,
{
    let fields = container_fields(props.properties);
    lemma_all_or_nothing(fields);
    lemma_first_failure(fields);
    assert forall|k: int| 0 <= k < props.properties.len() implies ((#[trigger] fields[k]) is Ok
        <==> props.properties[k].intrinsic() is Some) by {}
    if container_text(props) is Ok {
        assert forall|k: int| 0 <= k < props.properties.len() implies (
        #[trigger] props.properties[k]).intrinsic() is Some by {
            assert(fields[k] is Ok);
        }
    }
}

/// A container holds one field per property, in the order of the schema:
/// field `i` is that of property `i`, and the field of an earlier property
/// stands before that of a later one.
pub proof fn lemma_container_fields_in_order(props: TypeView, i: int, j: int)
    requires
        0 <= i < j < props.properties.len(),
    ensures
        container_fields(props.properties).len() == props.properties.len(),
        container_fields(props.properties)[i] == container_field_text(props.properties[i]),
        container_fields(props.properties)[j] == container_field_text(props.properties[j]),
        stands_before(texts_of(container_fields(props.properties)), i, j),
{
    lemma_pieces_in_order(texts_of(container_fields(props.properties)), i, j);
}

/// Writes the field of a properties container that holds `property`: a
/// field of the native type, or of an `Option` of it with the mark that makes
/// it absent by default where the property is optional; with the mark that
/// keeps it out of the serializer where the property is of type `any`.
///
/// Fails with `UnsupportedIntrinsicType` where the property has no known
/// intrinsic type.
pub fn component_props_field(property: &TypeProperty) -> (outcome: Result<String, GenerationError>)
    ensures
        text_outcome(outcome) == container_field_text(property@),
{
    let intrinsic = match property.intrinsic() {
        Ok(intrinsic) => intrinsic,
        Err(error) => {
            return Err(error);
        },
    };
    let value_type = match property.value_type() {
        Ok(value_type) => value_type,
        Err(error) => {
            return Err(error);
        },
    };
    let mut text = String::new();
    if property.optional {
        text.append("    #[prop_or_default]\n");
    }
    if !intrinsic.is_encoded() {
        text.append("    #[serde(skip_serializing)]\n");
    }
    text.append("    pub ");
    text.append(property.name.as_str());
    text.append(": ");
    text.append(value_type.as_str());
    text.append(",\n");
    assert(text@ =~= container_field_text(property@)->Ok_0);
    Ok(text)
}

/// Generates the properties container of the type `props_type`: the source
/// text of a struct that derives `Clone`, `Properties` and `Serialize`, with
/// one field per property, in the order of the schema.
///
/// Fails with `UnsupportedIntrinsicType`, for the first such property, where
/// a property has no known intrinsic type; no part of the container is
/// returned then.
pub fn component_props_struct(props_type: &Type) -> (outcome: Result<String, GenerationError>)
    ensures
        text_outcome(outcome) == container_text(props_type@),
{
    let ghost fields = container_fields(props_type@.properties);
    let mut text = String::new();
    let mut i: usize = 0;
    while i < props_type.properties.len()
        invariant
            i <= props_type.properties.len(),
            fields == container_fields(props_type@.properties),
            all_or_nothing(fields.take(i as int)) == Ok::<Seq<char>, GenerationErrorView>(text@),
        decreases props_type.properties.len() - i,
    {
        proof {
            lemma_all_or_nothing_next(fields, i as int);
            assert(fields[i as int] == container_field_text(props_type.properties@[i as int]@));
        }
        match component_props_field(&props_type.properties[i]) {
            Ok(field) => {
                text.append(field.as_str());
            },
            Err(error) => {
                proof {
                    lemma_failure_stays(fields, i + 1);
                }
                return Err(error);
            },
        }
        i = i + 1;
    }
    proof {
        assert(fields.take(i as int) =~= fields);
    }
    let mut code = "#[derive(Clone, Properties, Serialize)]\n".to_owned();
    code.append("pub struct ");
    code.append(props_type.name.as_str());
    code.append(" {\n");
    code.append(text.as_str());
    code.append("}\n");
    Ok(code)
}

} // verus!
