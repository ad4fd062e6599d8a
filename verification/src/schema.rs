//! Schemas: the fields and indexes that the data of a hive is meant to have.
//!
//! A schema is a description only. Checking data against it is the work of a
//! validation engine that this library does not contain.

use vstd::prelude::*;
use crate::error::HiveError;
use crate::float_bits::FloatBits;
use crate::text_map::TextMap;

verus! {

/// What kind of value a field holds.
#[derive(Debug)]
pub enum FieldType {
    /// Text.
    String,
    /// A whole number.
    Integer,
    /// A number with a fractional part.
    Float,
    /// True or false.
    Boolean,
    /// A point in time.
    DateTime,
    /// Binary data.
    Binary,
    /// A list of values of one kind.
    Array(Box<FieldType>),
    /// A value with fields of its own.
    Object(Vec<SchemaField>),
    /// A reference to another cell.
    Reference,
    /// A point on the globe.
    GeoPoint,
    /// A kind that the application names.
    Custom(String),
}

/// A rule that the value of a field has to meet.
#[derive(Debug)]
pub enum ValidationRule {
    /// The least length of a text or a list.
    MinLength(usize),
    /// The greatest length of a text or a list.
    MaxLength(usize),
    /// A regular expression that a text has to match.
    Pattern(String),
    /// The least value of a number.
    MinValue(FloatBits),
    /// The greatest value of a number.
    MaxValue(FloatBits),
    /// The values that are allowed.
    Enum(Vec<String>),
    /// A rule that the application names.
    Custom(String),
}

/// One field of a schema.
#[derive(Debug)]
pub struct SchemaField {
    /// The name of the field.
    pub name: String,
    /// What the field is for.
    pub description: String,
    /// What kind of value the field holds.
    pub field_type: FieldType,
    /// Whether the field has to be present.
    pub required: bool,
    /// The value of the field where none is given.
    pub default_value: Option<String>,
    /// The rules that the value has to meet, in the order in which they were
    /// added.
    pub validation: Vec<ValidationRule>,
}

/// What kind of index an index is.
#[derive(Debug, Clone, Copy, PartialEq, Eq, Structural)]
pub enum IndexType {
    /// A B-tree index.
    BTree,
    /// A hash index.
    Hash,
    /// A spatial index.
    Spatial,
    /// A full-text index.
    FullText,
}

/// An index over some fields of a schema.
#[derive(Debug)]
pub struct SchemaIndex {
    /// The name of the index.
    pub name: String,
    /// The names of the indexed fields.
    pub fields: Vec<String>,
    /// What kind of index it is.
    pub index_type: IndexType,
    /// Whether the indexed values have to be unique.
    pub unique: bool,
}

/// A schema: named fields and indexes, with metadata.
#[derive(Debug)]
pub struct Schema {
    /// The name of the schema.
    pub name: String,
    /// What the schema is for.
    pub description: String,
    /// The version of the schema.
    pub version: String,
    /// The fields, in the order in which they were added.
    pub fields: Vec<SchemaField>,
    /// The indexes, in the order in which they were added.
    pub indexes: Vec<SchemaIndex>,
    /// Further metadata.
    pub metadata: TextMap,
}

/// Whether `i` is the first position in `fields` at which a field named
/// `name` stands.
pub open spec fn first_field_named(fields: Seq<SchemaField>, name: Seq<char>, i: int) -> bool {
    &&& 0 <= i < fields.len()
    &&& fields[i].name@ == name
    &&& forall|k: int| 0 <= k < i ==> (#[trigger] fields[k]).name@ != name
}

/// Whether `i` is the first position in `indexes` at which an index named
/// `name` stands.
pub open spec fn first_index_named(indexes: Seq<SchemaIndex>, name: Seq<char>, i: int) -> bool {
    &&& 0 <= i < indexes.len()
    &&& indexes[i].name@ == name
    &&& forall|k: int| 0 <= k < i ==> (#[trigger] indexes[k]).name@ != name
}

impl Schema {
    /// A schema without fields, indexes or metadata.
    pub fn new(name: String, description: String, version: String) -> (schema: Schema)
        ensures
            schema.name == name,
            schema.description == description,
            schema.version == version,
            schema.fields@ == Seq::<SchemaField>::empty(),
            schema.indexes@ == Seq::<SchemaIndex>::empty(),
            schema.metadata@ == Map::<Seq<char>, Seq<char>>::empty(),
    {
        Schema {
            name,
            description,
            version,
            fields: Vec::new(),
            indexes: Vec::new(),
            metadata: TextMap::new(),
        }
    }

    /// Adds `field` after the fields that the schema has, and hands the
    /// schema back for the next change.
    pub fn add_field(&mut self, field: SchemaField) -> (schema: &mut Schema)
        ensures
            schema.fields@ == old(self).fields@.push(field),
            schema.name == old(self).name,
            schema.description == old(self).description,
            schema.version == old(self).version,
            schema.indexes == old(self).indexes,
            schema.metadata == old(self).metadata,
            *final(self) == *final(schema),
    {
        self.fields.push(field);
        self
    }

    /// Adds `index` after the indexes that the schema has, and hands the
    /// schema back for the next change.
    pub fn add_index(&mut self, index: SchemaIndex) -> (schema: &mut Schema)
        ensures
            schema.indexes@ == old(self).indexes@.push(index),
            schema.name == old(self).name,
            schema.description == old(self).description,
            schema.version == old(self).version,
            schema.fields == old(self).fields,
            schema.metadata == old(self).metadata,
            *final(self) == *final(schema),
    {
        self.indexes.push(index);
        self
    }

    /// Gives the metadata key `key` the value `value`, and hands the schema
    /// back for the next change.
    pub fn set_metadata(&mut self, key: String, value: String) -> (schema: &mut Schema)
        ensures
            schema.metadata@ == old(self).metadata@.insert(key@, value@),
            schema.name == old(self).name,
            schema.description == old(self).description,
            schema.version == old(self).version,
            schema.fields == old(self).fields,
            schema.indexes == old(self).indexes,
            *final(self) == *final(schema),
    {
        let _ = self.metadata.insert(key, value);
        self
    }

    /// Checks `data` against this schema. No validation engine is attached,
    /// so every value passes.
    pub fn validate(&self, data: &serde_json::Value) -> (outcome: Result<(), HiveError>)
        ensures
            outcome is Ok,
    {
        Ok(())
    }

    /// The first field named `name`, if there is one.
    pub fn get_field(&self, name: &str) -> (found: Option<&SchemaField>)
        ensures
            match found {
                Some(field) => exists|i: int|
                    first_field_named(self.fields@, name@, i) && *field == self.fields@[i],
                None => forall|i: int|
                    0 <= i < self.fields@.len() ==> (#[trigger] self.fields@[i]).name@ != name@,
            },
    {
        let wanted: String = name.to_owned();
        let mut i: usize = 0;
        while i < self.fields.len()
            invariant
                i <= self.fields@.len(),
                wanted@ == name@,
                forall|k: int| 0 <= k < i ==> (#[trigger] self.fields@[k]).name@ != name@,
            decreases self.fields@.len() - i,
        {
            if self.fields[i].name == wanted {
                assert(first_field_named(self.fields@, name@, i as int));
                return Some(&self.fields[i]);
            }
            i += 1;
        }
        None
    }

    /// The first index named `name`, if there is one.
    pub fn get_index(&self, name: &str) -> (found: Option<&SchemaIndex>)
        ensures
            match found {
                Some(index) => exists|i: int|
                    first_index_named(self.indexes@, name@, i) && *index == self.indexes@[i],
                None => forall|i: int|
                    0 <= i < self.indexes@.len() ==> (#[trigger] self.indexes@[i]).name@
                        != name@,
            },
    {
        let wanted: String = name.to_owned();
        let mut i: usize = 0;
        while i < self.indexes.len()
            invariant
                i <= self.indexes@.len(),
                wanted@ == name@,
                forall|k: int| 0 <= k < i ==> (#[trigger] self.indexes@[k]).name@ != name@,
            decreases self.indexes@.len() - i,
        {
            if self.indexes[i].name == wanted {
                assert(first_index_named(self.indexes@, name@, i as int));
                return Some(&self.indexes[i]);
            }
            i += 1;
        }
        None
    }
}

impl SchemaField {
    /// A field without a default value or rules.
    pub fn new(name: String, description: String, field_type: FieldType, required: bool) -> (field:
        SchemaField)
        ensures
            field.name == name,
            field.description == description,
            field.field_type == field_type,
            field.required == required,
            field.default_value is None,
            field.validation@ == Seq::<ValidationRule>::empty(),
    {
        SchemaField {
            name,
            description,
            field_type,
            required,
            default_value: None,
            validation: Vec::new(),
        }
    }

    /// This field with `default_value` as its default.
    pub fn with_default(self, default_value: String) -> (field: SchemaField)
        ensures
            field == (SchemaField { default_value: Some(default_value), ..self }),
    {
        let mut field = self;
        field.default_value = Some(default_value);
        field
    }

    /// This field with `rule` after the rules that it has.
    pub fn with_validation(self, rule: ValidationRule) -> (field: SchemaField)
        ensures
            field.validation@ == self.validation@.push(rule),
            field.name == self.name,
            field.description == self.description,
            field.field_type == self.field_type,
            field.required == self.required,
            field.default_value == self.default_value,
    {
        let mut field = self;
        field.validation.push(rule);
        field
    }
}

impl SchemaIndex {
    /// An index of the given kind over the given fields.
    pub fn new(name: String, fields: Vec<String>, index_type: IndexType, unique: bool) -> (index:
        SchemaIndex)
        ensures
            index == (SchemaIndex { name, fields, index_type, unique }),
    {
        SchemaIndex { name, fields, index_type, unique }
    }
}

} // verus!
