//! The intrinsic types: the fixed vocabulary of scalar types that can cross
//! the boundary, each with its native type and the expression that converts
//! a native value into a boundary-safe one.

use vstd::prelude::*;
use vstd::string::*;

use crate::error::{text_outcome, GenerationError, GenerationErrorView, TextOutcome};
use crate::schema::{TypeProperty, TypePropertyView};

verus! {

/// One of the intrinsic types.
#[derive(Clone, Copy, Debug, PartialEq, Eq, Structural)]
pub enum IntrinsicType {
    /// `string`: a native string, encoded on its way across.
    Text,
    /// `number`: a native 64-bit float, encoded on its way across.
    Number,
    /// `boolean`: a native boolean, encoded on its way across.
    Boolean,
    /// `any`: a boundary-safe value already, handed across as it is.
    Any,
}

impl IntrinsicType {
    /// The intrinsic type that the schema calls `name`.
    pub open spec fn named(name: Seq<char>) -> Option<IntrinsicType> {
        if name == "string"@ {
            Some(IntrinsicType::Text)
        } else if name == "number"@ {
            Some(IntrinsicType::Number)
        } else if name == "boolean"@ {
            Some(IntrinsicType::Boolean)
        } else if name == "any"@ {
            Some(IntrinsicType::Any)
        } else {
            None
        }
    }

    /// The native type of a field of this intrinsic type.
    pub open spec fn native_type_text(self) -> Seq<char> {
        match self {
            IntrinsicType::Text => "String"@,
            IntrinsicType::Number => "f64"@,
            IntrinsicType::Boolean => "bool"@,
            IntrinsicType::Any => "JsValue"@,
        }
    }

    /// Whether a value of this intrinsic type is encoded on its way across
    /// the boundary. A value of `any` is boundary-safe already and is not.
    pub open spec fn encoded(self) -> bool {
        match self {
            IntrinsicType::Any => false,
            _ => true,
        }
    }

    /// The expression that turns the native value found under `value`, a
    /// reference, into one boundary-safe value. A value that is encoded goes
    /// through the encoding, which encodes an absent optional value as
    /// `null`. A value that is boundary-safe already is handed on as it is
    /// where it is required; where `optional` holds, what is handed on is the
    /// value that is there, and `null` where there is none.
    pub open spec fn conversion_text(self, value: Seq<char>, optional: bool) -> Seq<char> {
        if self.encoded() {
            "JsValue::from_serde("@ + value + ").unwrap()"@
        } else if optional {
            value + ".to_owned().unwrap_or_else(JsValue::null)"@
        } else {
            value + ".to_owned()"@
        }
    }

    /// Looks up the intrinsic type that the schema calls `name`.
    pub fn from_name(name: &str) -> (found: Option<IntrinsicType>)
        ensures
            found == Self::named(name@),
    {
        let name = name.to_owned();
        if name == "string".to_owned() {
            Some(IntrinsicType::Text)
        } else if name == "number".to_owned() {
            Some(IntrinsicType::Number)
        } else if name == "boolean".to_owned() {
            Some(IntrinsicType::Boolean)
        } else if name == "any".to_owned() {
            Some(IntrinsicType::Any)
        } else {
            None
        }
    }

    /// Writes the native type of a field of this intrinsic type.
    pub fn native_type(self) -> (text: String)
        ensures
            text@ == self.native_type_text(),
    {
        match self {
            IntrinsicType::Text => "String".to_owned(),
            IntrinsicType::Number => "f64".to_owned(),
            IntrinsicType::Boolean => "bool".to_owned(),
            IntrinsicType::Any => "JsValue".to_owned(),
        }
    }

    /// Says whether a value of this intrinsic type is encoded on its way
    /// across the boundary.
    pub fn is_encoded(self) -> (encoded: bool)
        ensures
            encoded == self.encoded(),
    {
        match self {
            IntrinsicType::Any => false,
            _ => true,
        }
    }

    /// Writes the expression that turns the native value found under
    /// `value`, a reference, into one boundary-safe value; `optional` says
    /// whether the value may be left out.
    pub fn conversion(self, value: &str, optional: bool) -> (text: String)
        ensures
            text@ == self.conversion_text(value@, optional),
    {
        if self.is_encoded() {
            let mut text = "JsValue::from_serde(".to_owned();
            text.append(value);
            text.append(").unwrap()");
            text
        } else if optional {
            let mut text = value.to_owned();
            text.append(".to_owned().unwrap_or_else(JsValue::null)");
            text
        } else {
            let mut text = value.to_owned();
            text.append(".to_owned()");
            text
        }
    }
}

/// The vocabulary is these four names, each for its own intrinsic type.
pub proof fn lemma_intrinsic_vocabulary()
    ensures
        IntrinsicType::named("string"@) == Some(IntrinsicType::Text),
        IntrinsicType::named("number"@) == Some(IntrinsicType::Number),
        IntrinsicType::named("boolean"@) == Some(IntrinsicType::Boolean),
        IntrinsicType::named("any"@) == Some(IntrinsicType::Any),
        forall|name: Seq<char>|
            IntrinsicType::named(name) is Some <==> (name == "string"@ || name == "number"@
                || name == "boolean"@ || name == "any"@),
{
    reveal_strlit("string");
    reveal_strlit("number");
    reveal_strlit("boolean");
    reveal_strlit("any");
    assert("string"@ != "number"@) by {
        assert("string"@[0] != "number"@[0]);
    }
    assert("boolean"@.len() != "any"@.len());
}

impl TypePropertyView {
    /// The intrinsic type of the property, where it has a known one.
    pub open spec fn intrinsic(self) -> Option<IntrinsicType> {
        match self.intrinsic_type {
            Some(name) => IntrinsicType::named(name),
            None => None,
        }
    }

    /// The failure that the property causes where it has no known intrinsic
    /// type: it carries the property's name and the offending type name.
    pub open spec fn unsupported(self) -> GenerationErrorView {
        GenerationErrorView::UnsupportedIntrinsicType {
            property: self.name,
            intrinsic_type: self.intrinsic_type,
        }
    }

    /// The native type of the property's value, or the failure.
    pub open spec fn native_type(self) -> TextOutcome {
        match self.intrinsic() {
            Some(intrinsic) => Ok(intrinsic.native_type_text()),
            None => Err(self.unsupported()),
        }
    }

    /// The type of the property's value in native code, or the failure:
    /// the native type where the property is required, and an `Option` of
    /// it where the host may leave the property out.
    pub open spec fn value_type(self) -> TextOutcome {
        match self.native_type() {
            Ok(native) => Ok(
                if self.optional {
                    "Option<"@ + native + ">"@
                } else {
                    native
                },
            ),
            Err(error) => Err(error),
        }
    }

    /// The expression that converts the property's value, found under
    /// `value`, into one boundary-safe value, or the failure. An optional
    /// property that was left out is handed across as `null`.
    pub open spec fn conversion(self, value: Seq<char>) -> TextOutcome {
        match self.intrinsic() {
            Some(intrinsic) => Ok(intrinsic.conversion_text(value, self.optional)),
            None => Err(self.unsupported()),
        }
    }
}

impl TypeProperty {
    /// The identifier under which the property stands in emitted code.
    pub fn name_ident(&self) -> (ident: String)
        ensures
            ident@ == self@.name,
    {
        self.name.clone()
    }

    /// The failure that this property causes where it has no known intrinsic
    /// type.
    fn unsupported(&self) -> (error: GenerationError)
        ensures
            error@ == self@.unsupported(),
    {
        GenerationError::UnsupportedIntrinsicType {
            property: self.name.clone(),
            intrinsic_type: match &self.intrinsic_type {
                Some(name) => Some(name.clone()),
                None => None,
            },
        }
    }

    /// The intrinsic type of the property. Fails with
    /// `UnsupportedIntrinsicType` where the schema gives none, or one that
    /// is not known.
    pub fn intrinsic(&self) -> (outcome: Result<IntrinsicType, GenerationError>)
        ensures
            match outcome {
                Ok(intrinsic) => self@.intrinsic() == Some(intrinsic),
                Err(error) => self@.intrinsic() is None && error@ == self@.unsupported(),
            },
    {
        let found = match &self.intrinsic_type {
            Some(name) => IntrinsicType::from_name(name.as_str()),
            None => None,
        };
        match found {
            Some(intrinsic) => Ok(intrinsic),
            None => Err(self.unsupported()),
        }
    }

    /// The native type of the property's value. Fails with
    /// `UnsupportedIntrinsicType` where the property has no known intrinsic
    /// type.
    pub fn rust_type_for_intrinsic_type(&self) -> (outcome: Result<String, GenerationError>)
        ensures
            text_outcome(outcome) == self@.native_type(),
    {
        match self.intrinsic() {
            Ok(intrinsic) => Ok(intrinsic.native_type()),
            Err(error) => Err(error),
        }
    }

    /// The type of the property's value in native code: the native type
    /// where the property is required, and an `Option` of it where the host
    /// may leave the property out. Fails with `UnsupportedIntrinsicType`
    /// where the property has no known intrinsic type.
    pub fn value_type(&self) -> (outcome: Result<String, GenerationError>)
        ensures
            text_outcome(outcome) == self@.value_type(),
    {
        let native = match self.rust_type_for_intrinsic_type() {
            Ok(native) => native,
            Err(error) => {
                return Err(error);
            },
        };
        if self.optional {
            let mut text = "Option<".to_owned();
            text.append(native.as_str());
            text.append(">");
            Ok(text)
        } else {
            Ok(native)
        }
    }

    /// The expression that converts the property's value, a reference found
    /// under `prop_name`, into one boundary-safe value; for an optional
    /// property that was left out the value is `null`. Fails with
    /// `UnsupportedIntrinsicType` where the property has no known intrinsic
    /// type.
    pub fn conversion_to_js_type(&self, prop_name: &str) -> (outcome: Result<
        String,
        GenerationError,
    >)
        ensures
            text_outcome(outcome) == self@.conversion(prop_name@),
    {
        match self.intrinsic() {
            Ok(intrinsic) => Ok(intrinsic.conversion(prop_name, self.optional)),
            Err(error) => Err(error),
        }
    }
}

} // verus!
