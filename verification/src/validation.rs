//! Checking the input of an operation against the schema of the operation.
//!
//! The input and the schema are JSON documents.  What is checked reads only
//! a little of them, and that is what the types here hold: the members of
//! the input with their kinds, the names that the schema requires, and the
//! types that it gives to properties.

use vstd::prelude::*;
use vstd::string::*;
use crate::error::MediaError;
use crate::text::same_text;

verus! {

/// The kind of a JSON value.
#[derive(Debug, Clone, Copy, PartialEq, Eq, Structural)]
pub enum JsonKind {
    /// `null`.
    Null,
    /// `true` or `false`.
    Boolean,
    /// A number.
    Number,
    /// A string.
    Text,
    /// An array.
    Array,
    /// An object.
    Object,
}

/// A member of the input object.
#[derive(Debug, Clone, PartialEq, Eq)]
pub struct Field {
    /// Name of the member.
    pub name: String,
    /// Kind of its value.
    pub kind: JsonKind,
    /// Its value as it is shown in a message.
    pub shown: String,
}

/// A property of the schema.
#[derive(Debug, Clone, PartialEq, Eq)]
pub struct Property {
    /// Name of the property.
    pub name: String,
    /// The type that the schema names for it, where it names one as a string.
    pub expected: Option<String>,
}

/// What a schema says of the input of an operation.
#[derive(Debug, Clone, PartialEq, Eq)]
pub struct Schema {
    /// The entries of `required`, where the schema has such an array: the
    /// name for an entry that is a string, none for any other entry.
    pub required: Option<Vec<Option<String>>>,
    /// The members of `properties`, where the schema has such an object.
    pub properties: Option<Vec<Property>>,
}

/// A member of the input, as a value.
pub struct FieldView {
    /// Name of the member.
    pub name: Seq<char>,
    /// Kind of its value.
    pub kind: JsonKind,
    /// Its value as it is shown in a message.
    pub shown: Seq<char>,
}

/// A property of the schema, as a value.
pub struct PropertyView {
    /// Name of the property.
    pub name: Seq<char>,
    /// The type that the schema names for it.
    pub expected: Option<Seq<char>>,
}

impl View for Field {
    type V = FieldView;

    open spec fn view(&self) -> FieldView {
        FieldView { name: self.name@, kind: self.kind, shown: self.shown@ }
    }
}

impl View for Property {
    type V = PropertyView;

    open spec fn view(&self) -> PropertyView {
        PropertyView {
            name: self.name@,
            expected: match self.expected {
                Some(s) => Some(s@),
                None => None,
            },
        }
    }
}

/// The members of an input, as values.
pub open spec fn field_views(fields: Seq<Field>) -> Seq<FieldView> {
    fields.map_values(|f: Field| f@)
}

/// The properties of a schema, as values.
pub open spec fn property_views(properties: Seq<Property>) -> Seq<PropertyView> {
    properties.map_values(|p: Property| p@)
}

/// The required names of a schema, as values.
pub open spec fn required_views(required: Seq<Option<String>>) -> Seq<Option<Seq<char>>> {
    required.map_values(
        |r: Option<String>|
            match r {
                Some(s) => Some(s@),
                None => None,
            },
    )
}

/// Whether the input has a member called `name`.
pub open spec fn has_field(fields: Seq<FieldView>, name: Seq<char>) -> bool {
    exists|i: int| 0 <= i < fields.len() && (#[trigger] fields[i]).name == name
}

/// Whether a value of kind `kind` has the type that a schema calls
/// `expected`.  A type that is not known fits every value.
pub open spec fn kind_fits(kind: JsonKind, expected: Seq<char>) -> bool {
    if expected == "string"@ {
        kind == JsonKind::Text
    } else if expected == "integer"@ || expected == "number"@ {
        kind == JsonKind::Number
    } else if expected == "boolean"@ {
        kind == JsonKind::Boolean
    } else if expected == "array"@ {
        kind == JsonKind::Array
    } else if expected == "object"@ {
        kind == JsonKind::Object
    } else if expected == "null"@ {
        kind == JsonKind::Null
    } else {
        true
    }
}

/// What is wrong with the required names from position `i` on, if anything:
/// the first entry that is no name, or that names a member which the input
/// lacks.
pub open spec fn required_failure(
    fields: Seq<FieldView>,
    required: Seq<Option<Seq<char>>>,
    i: int,
) -> Option<Seq<char>>
    decreases required.len() - i,
{
    if i < 0 || i >= required.len() {
        None
    } else {
        match required[i] {
            None => Some("Invalid schema: required field not a string"@),
            Some(name) => if has_field(fields, name) {
                required_failure(fields, required, i + 1)
            } else {
                Some("Missing required field: "@ + name)
            },
        }
    }
}

/// The type that the schema names for the property called `name`, looking
/// from position `j` on; none where the schema has no such property or
/// names no type for it.
pub open spec fn expected_type(properties: Seq<PropertyView>, name: Seq<char>, j: int) -> Option<
    Seq<char>,
>
    decreases properties.len() - j,
{
    if j < 0 || j >= properties.len() {
        None
    } else if properties[j].name == name {
        properties[j].expected
    } else {
        expected_type(properties, name, j + 1)
    }
}

/// What is wrong with the member `field`, if anything.
pub open spec fn field_failure(field: FieldView, properties: Seq<PropertyView>) -> Option<
    Seq<char>,
> {
    match expected_type(properties, field.name, 0) {
        Some(expected) => if kind_fits(field.kind, expected) {
            None
        } else {
            Some("Type mismatch: expected "@ + expected + ", got "@ + field.shown)
        },
        None => None,
    }
}

/// What is wrong with the members from position `i` on, if anything: the
/// first whose value has not the type of its property.
pub open spec fn type_failure(
    fields: Seq<FieldView>,
    properties: Seq<PropertyView>,
    i: int,
) -> Option<Seq<char>>
    decreases fields.len() - i,
{
    if i < 0 || i >= fields.len() {
        None
    } else {
        match field_failure(fields[i], properties) {
            Some(message) => Some(message),
            None => type_failure(fields, properties, i + 1),
        }
    }
}

/// What is wrong with the required names of a schema, if anything.
pub open spec fn missing_failure(fields: Seq<FieldView>, schema: Schema) -> Option<Seq<char>> {
    match schema.required {
        Some(required) => required_failure(fields, required_views(required@), 0),
        None => None,
    }
}

/// What is wrong with an input, if anything: first what is wrong with the
/// required names, then what is wrong with the types.
pub open spec fn validation_failure(fields: Seq<FieldView>, schema: Schema) -> Option<Seq<char>> {
    match missing_failure(fields, schema) {
        Some(message) => Some(message),
        None => match schema.properties {
            Some(properties) => type_failure(fields, property_views(properties@), 0),
            None => None,
        },
    }
}

/// Whether the input has a member called `name`.
fn find_field(fields: &[Field], name: &str) -> (found: bool)
    ensures
        found == has_field(field_views(fields@), name@),
{
    let mut i: usize = 0;
    while i < fields.len()
        invariant
            i <= fields@.len(),
            forall|k: int| 0 <= k < i ==> (#[trigger] field_views(fields@)[k]).name != name@,
        decreases fields@.len() - i,
    {
        if same_text(fields[i].name.as_str(), name) {
            assert(field_views(fields@)[i as int].name == name@);
            return true;
        }
        i = i + 1;
    }
    false
}

/// Whether a value of kind `kind` has the type called `expected`.
pub fn fits(kind: JsonKind, expected: &str) -> (ok: bool)
    ensures
        ok == kind_fits(kind, expected@),
{
    if same_text(expected, "string") {
        kind == JsonKind::Text
    } else if same_text(expected, "integer") || same_text(expected, "number") {
        kind == JsonKind::Number
    } else if same_text(expected, "boolean") {
        kind == JsonKind::Boolean
    } else if same_text(expected, "array") {
        kind == JsonKind::Array
    } else if same_text(expected, "object") {
        kind == JsonKind::Object
    } else if same_text(expected, "null") {
        kind == JsonKind::Null
    } else {
        true
    }
}

/// Checks a member against the properties of a schema.
fn validate_type(field: &Field, properties: &[Property]) -> (r: Result<(), MediaError>)
    ensures
        match r {
            Ok(_) => field_failure(field@, property_views(properties@)) is None,
            Err(e) => e matches MediaError::ValidationError(message) && field_failure(
                field@,
                property_views(properties@),
            ) == Some(message@),
        },
{
    let ghost props = property_views(properties@);
    let mut j: usize = 0;
    while j < properties.len()
        invariant
            j <= properties@.len(),
            props == property_views(properties@),
            expected_type(props, field@.name, 0) == expected_type(props, field@.name, j as int),
        decreases properties@.len() - j,
    {
        if same_text(properties[j].name.as_str(), field.name.as_str()) {
            assert(props[j as int] == properties@[j as int]@);
            return match &properties[j].expected {
                Some(expected) => {
                    if fits(field.kind, expected.as_str()) {
                        Ok(())
                    } else {
                        let mut message = String::from_str("Type mismatch: expected ");
                        message.append(expected.as_str());
                        message.append(", got ");
                        message.append(field.shown.as_str());
                        Err(MediaError::ValidationError(message))
                    }
                },
                None => Ok(()),
            };
        }
        assert(props[j as int] == properties@[j as int]@);
        j = j + 1;
    }
    Ok(())
}

/// Checks the members of an input object against a schema: every name
/// that the schema requires must be there, and every member that the schema
/// gives a type must have it.  An input that is no object has no members.
pub fn validate_input(input: &[Field], schema: &Schema) -> (r: Result<(), MediaError>)
    ensures
        match r {
            Ok(_) => validation_failure(field_views(input@), *schema) is None,
            Err(e) => e matches MediaError::ValidationError(message) && validation_failure(
                field_views(input@),
                *schema,
            ) == Some(message@),
        },
{
    let ghost fields = field_views(input@);
    match &schema.required {
        Some(required) => {
            let ghost names = required_views(required@);
            let mut i: usize = 0;
            while i < required.len()
                invariant
                    i <= required@.len(),
                    fields == field_views(input@),
                    names == required_views(required@),
                    schema.required == Some(*required),
                    required_failure(fields, names, 0) == required_failure(fields, names, i as int),
                decreases required@.len() - i,
            {
                assert(names[i as int] == match required@[i as int] {
                    Some(s) => Some(s@),
                    None => None,
                });
                match &required[i] {
                    None => {
                        return Err(
                            MediaError::ValidationError(
                                String::from_str("Invalid schema: required field not a string"),
                            ),
                        );
                    },
                    Some(name) => {
                        if !find_field(input, name.as_str()) {
                            let message = String::from_str("Missing required field: ").concat(
                                name.as_str(),
                            );
                            return Err(MediaError::ValidationError(message));
                        }
                    },
                }
                i = i + 1;
            }
        },
        None => {},
    }
    assert(missing_failure(fields, *schema) is None);
    match &schema.properties {
        Some(properties) => {
            let ghost props = property_views(properties@);
            let mut i: usize = 0;
            while i < input.len()
                invariant
                    i <= input@.len(),
                    fields == field_views(input@),
                    props == property_views(properties@),
                    schema.properties == Some(*properties),
                    missing_failure(fields, *schema) is None,
                    type_failure(fields, props, 0) == type_failure(fields, props, i as int),
                decreases input@.len() - i,
            {
                assert(fields[i as int] == input@[i as int]@);
                match validate_type(&input[i], properties.as_slice()) {
                    Ok(_) => {},
                    Err(e) => {
                        return Err(e);
                    },
                }
                i = i + 1;
            }
            Ok(())
        },
        None => Ok(()),
    }
}

} // verus!
