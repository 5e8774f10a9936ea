//! Content schemas: field types and fields.
//!
//! A content type's schema is an ordered list of `Field`s. Each field
//! declares a display id (the key it is stored under in a document), one
//! of the four field types, and whether it is required.

use crate::json::{JsonValue, Jv};
use vstd::prelude::*;

verus! {

use vstd::string::StringExecFns;

/// The closed set of field types a schema may declare. An unknown type
/// name is rejected when parsed, so validation never sees one.
#[derive(Clone, Copy, Debug, PartialEq, Eq, Structural)]
pub enum FieldType {
    Text,
    Number,
    Date,
    Boolean,
}

/// Whether `s` is a valid RFC 3339 timestamp. Decided by chrono's
/// parser; it depends on the characters alone.
pub uninterp spec fn rfc3339_parses(s: Seq<char>) -> bool;

/// Relies on chrono's `DateTime::parse_from_rfc3339`: a pure parse of
/// the string, deciding `rfc3339_parses`.
#[verifier::external_body]
fn rfc3339_ok(s: &str) -> (r: bool)
    ensures
        r == rfc3339_parses(s@),
{
    chrono::DateTime::parse_from_rfc3339(s).is_ok()
}

/// Whether a JSON value satisfies a declared field type.
///
/// Text accepts exactly strings, Number exactly JSON numbers, Boolean
/// exactly JSON booleans, and Date exactly strings that parse as full
/// RFC 3339 timestamps. No coercion: a numeric-looking string is not a
/// number.
pub open spec fn value_matches(ft: FieldType, v: Jv) -> bool {
    match ft {
        FieldType::Text => v is Str,
        FieldType::Number => v is Num,
        FieldType::Boolean => v is Bool,
        FieldType::Date => v matches Jv::Str(s) && rfc3339_parses(s),
    }
}

impl FieldType {
    /// The name each field type is stored and sent under.
    pub open spec fn name_spec(self) -> Seq<char> {
        match self {
            FieldType::Text => "Text"@,
            FieldType::Number => "Number"@,
            FieldType::Date => "Date"@,
            FieldType::Boolean => "Boolean"@,
        }
    }

    /// The storage name of this field type.
    pub fn as_str(&self) -> (r: &'static str)
        ensures
            r@ == self.name_spec(),
    {
        proof {
            reveal_strlit("Text");
            reveal_strlit("Number");
            reveal_strlit("Date");
            reveal_strlit("Boolean");
        }
        match self {
            FieldType::Text => "Text",
            FieldType::Number => "Number",
            FieldType::Date => "Date",
            FieldType::Boolean => "Boolean",
        }
    }

    /// Parse a stored field-type name; any unknown name is rejected.
    pub fn from_str(s: &String) -> (r: Option<FieldType>)
        ensures
            match r {
                Some(ft) => s@ == ft.name_spec(),
                None => forall|ft: FieldType| s@ != ft.name_spec(),
            },
    {
        proof {
            reveal_strlit("Text");
            reveal_strlit("Number");
            reveal_strlit("Date");
            reveal_strlit("Boolean");
        }
        if *s == String::from_str("Text") {
            Some(FieldType::Text)
        } else if *s == String::from_str("Number") {
            Some(FieldType::Number)
        } else if *s == String::from_str("Date") {
            Some(FieldType::Date)
        } else if *s == String::from_str("Boolean") {
            Some(FieldType::Boolean)
        } else {
            proof {
                assert forall|ft: FieldType| s@ != ft.name_spec() by {
                    match ft {
                        FieldType::Text => assert(s@ != "Text"@),
                        FieldType::Number => assert(s@ != "Number"@),
                        FieldType::Date => assert(s@ != "Date"@),
                        FieldType::Boolean => assert(s@ != "Boolean"@),
                    }
                }
            }
            None
        }
    }
}

/// One declared field of a content type's schema.
pub struct Field {
    pub id: u64,
    pub content_type_id: u64,
    pub display_id: String,
    pub field_type: FieldType,
    pub required: bool,
}

/// Mathematical model of a field: what validation reads of it.
pub struct FieldV {
    pub display_id: Seq<char>,
    pub field_type: FieldType,
    pub required: bool,
}

impl View for Field {
    type V = FieldV;

    open spec fn view(&self) -> FieldV {
        FieldV { display_id: self.display_id@, field_type: self.field_type, required: self.required }
    }
}

/// The schema a sequence of fields declares.
pub open spec fn fields_view(fields: Seq<Field>) -> Seq<FieldV> {
    fields.map_values(|f: Field| f@)
}

impl Field {
    /// Whether `value` satisfies this field's declared type.
    pub fn field_type_matches(&self, value: &JsonValue) -> (r: bool)
        ensures
            r == value_matches(self.field_type, value@),
    {
        match self.field_type {
            FieldType::Text => match value {
                JsonValue::String(_) => true,
                _ => false,
            },
            FieldType::Number => match value {
                JsonValue::Number(_) => true,
                _ => false,
            },
            FieldType::Boolean => match value {
                JsonValue::Bool(_) => true,
                _ => false,
            },
            FieldType::Date => match value {
                JsonValue::String(s) => rfc3339_ok(s.as_str()),
                _ => false,
            },
        }
    }

    /// A structurally equal copy of this field.
    pub fn duplicate(&self) -> (r: Field)
        ensures
            r.id == self.id,
            r.content_type_id == self.content_type_id,
            r.display_id@ == self.display_id@,
            r.field_type == self.field_type,
            r.required == self.required,
    {
        Field {
            id: self.id,
            content_type_id: self.content_type_id,
            display_id: self.display_id.clone(),
            field_type: self.field_type,
            required: self.required,
        }
    }
}

} // verus!
