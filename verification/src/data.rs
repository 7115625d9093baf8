//! Sample values of runtime-defined types: one optional value per field of the
//! type descriptor, in field order.

use vstd::prelude::*;

use crate::error::DdsError;
use crate::text::owned;
use crate::type_descriptor::{
    first_field_index, lemma_first_index_bounds, ExtensibilityKind, FieldDescriptor, Int2DdsTypeDescriptor,
};

verus! {

/// The value of one field. Floating-point values are held as their IEEE-754
/// bit patterns, which is also what goes on the wire.
#[derive(Debug)]
pub enum FieldValue {
    Bool(bool),
    Int8(i8),
    UInt8(u8),
    Int16(i16),
    UInt16(u16),
    Int32(i32),
    UInt32(u32),
    Int64(i64),
    UInt64(u64),
    /// Bit pattern of an `f32`.
    Float32(u32),
    /// Bit pattern of an `f64`.
    Float64(u64),
    String(String),
    Sequence(Vec<FieldValue>),
    Array(Vec<FieldValue>),
    Struct(Box<Int2DdsData>),
    /// An octet sequence held in one buffer.
    Bytes(Vec<u8>),
}

/// A sample of a runtime-defined type: `values[i]` belongs to field `i`.
#[derive(Debug)]
pub struct Int2DdsData {
    pub values: Vec<Option<FieldValue>>,
}

/// Mathematical value of a field value.
pub enum SpecValue {
    Bool(bool),
    Int8(i8),
    UInt8(u8),
    Int16(i16),
    UInt16(u16),
    Int32(i32),
    UInt32(u32),
    Int64(i64),
    UInt64(u64),
    Float32(u32),
    Float64(u64),
    Str(Seq<char>),
    Sequence(Seq<SpecValue>),
    Array(Seq<SpecValue>),
    Struct(Seq<Option<SpecValue>>),
    Bytes(Seq<u8>),
}

/// The mathematical value of a field value.
pub open spec fn value_view(v: FieldValue) -> SpecValue
    decreases v, 1nat,
{
    match v {
        FieldValue::Bool(x) => SpecValue::Bool(x),
        FieldValue::Int8(x) => SpecValue::Int8(x),
        FieldValue::UInt8(x) => SpecValue::UInt8(x),
        FieldValue::Int16(x) => SpecValue::Int16(x),
        FieldValue::UInt16(x) => SpecValue::UInt16(x),
        FieldValue::Int32(x) => SpecValue::Int32(x),
        FieldValue::UInt32(x) => SpecValue::UInt32(x),
        FieldValue::Int64(x) => SpecValue::Int64(x),
        FieldValue::UInt64(x) => SpecValue::UInt64(x),
        FieldValue::Float32(x) => SpecValue::Float32(x),
        FieldValue::Float64(x) => SpecValue::Float64(x),
        FieldValue::String(s) => SpecValue::Str(s@),
        FieldValue::Sequence(items) => SpecValue::Sequence(seq_views(items@)),
        FieldValue::Array(items) => SpecValue::Array(seq_views(items@)),
        FieldValue::Struct(d) => SpecValue::Struct(opt_views(d.values@)),
        FieldValue::Bytes(b) => SpecValue::Bytes(b@),
    }
}

/// The mathematical values of a sequence of field values.
pub open spec fn seq_views(items: Seq<FieldValue>) -> Seq<SpecValue>
    decreases items, 0nat,
{
    Seq::new(
        items.len(),
        |i: int|
            if 0 <= i < items.len() {
                value_view(items[i])
            } else {
                SpecValue::Bool(false)
            },
    )
}

/// The mathematical values of a sequence of optional field values.
pub open spec fn opt_views(items: Seq<Option<FieldValue>>) -> Seq<Option<SpecValue>>
    decreases items, 0nat,
{
    Seq::new(
        items.len(),
        |i: int|
            if 0 <= i < items.len() {
                match items[i] {
                    Some(x) => Some(value_view(x)),
                    None => None,
                }
            } else {
                None
            },
    )
}

/// The mathematical value of an optional field value.
pub open spec fn opt_view(v: Option<FieldValue>) -> Option<SpecValue> {
    match v {
        Some(x) => Some(value_view(x)),
        None => None,
    }
}

impl View for FieldValue {
    type V = SpecValue;

    open spec fn view(&self) -> SpecValue {
        value_view(*self)
    }
}

impl View for Int2DdsData {
    type V = Seq<Option<SpecValue>>;

    open spec fn view(&self) -> Seq<Option<SpecValue>> {
        opt_views(self.values@)
    }
}

/// Views of a sequence grow with it.
pub proof fn lemma_seq_views_push(items: Seq<FieldValue>, x: FieldValue)
    ensures
        seq_views(items.push(x)) == seq_views(items).push(value_view(x)),
{
    assert(seq_views(items.push(x)) =~= seq_views(items).push(value_view(x)));
}

/// Views of a sequence of optional values grow with it.
pub proof fn lemma_opt_views_push(items: Seq<Option<FieldValue>>, x: Option<FieldValue>)
    ensures
        opt_views(items.push(x)) == opt_views(items).push(opt_view(x)),
{
    assert(opt_views(items.push(x)) =~= opt_views(items).push(opt_view(x)));
}

/// Replacing one optional value replaces its view.
pub proof fn lemma_opt_views_update(items: Seq<Option<FieldValue>>, i: int, x: Option<FieldValue>)
    requires
        0 <= i < items.len(),
    ensures
        opt_views(items.update(i, x)) == opt_views(items).update(i, opt_view(x)),
{
    assert(opt_views(items.update(i, x)) =~= opt_views(items).update(i, opt_view(x)));
}

/// The empty sequence has no views.
pub proof fn lemma_views_empty(items: Seq<FieldValue>, opts: Seq<Option<FieldValue>>)
    ensures
        items.len() == 0 ==> seq_views(items) == Seq::<SpecValue>::empty(),
        opts.len() == 0 ==> opt_views(opts) == Seq::<Option<SpecValue>>::empty(),
{
    if items.len() == 0 {
        assert(seq_views(items) =~= Seq::<SpecValue>::empty());
    }
    if opts.len() == 0 {
        assert(opt_views(opts) =~= Seq::<Option<SpecValue>>::empty());
    }
}

impl Int2DdsData {
    /// An empty sample of the given type: every field absent.
    pub fn new(descriptor: &Int2DdsTypeDescriptor) -> (r: Self)
        ensures
            r@ == Seq::new(descriptor.fields@.len(), |i: int| None::<SpecValue>),
    {
        let mut values: Vec<Option<FieldValue>> = Vec::new();
        let mut i: usize = 0;
        while i < descriptor.fields.len()
            invariant
                i <= descriptor.fields@.len(),
                values@.len() == i,
                forall|j: int| 0 <= j < i ==> values@[j] is None,
            decreases descriptor.fields@.len() - i,
        {
            values.push(None);
            i += 1;
        }
        let r = Int2DdsData { values };
        assert(r@ =~= Seq::new(descriptor.fields@.len(), |i: int| None::<SpecValue>));
        r
    }

    /// The value of field `index`, if present.
    pub fn get_value_by_index(&self, index: usize) -> (r: Option<&FieldValue>)
        ensures
            index < self.values@.len() && self.values@[index as int] is Some ==> (r matches Some(v)
                && *v == self.values@[index as int]->0),
            !(index < self.values@.len() && self.values@[index as int] is Some) ==> r is None,
    {
        if index < self.values.len() {
            match &self.values[index] {
                Some(v) => Some(v),
                None => None,
            }
        } else {
            None
        }
    }

    /// The value of the first field named `name`, if present.
    pub fn get_value(&self, descriptor: &Int2DdsTypeDescriptor, name: &str) -> (r: Option<&FieldValue>)
        ensures
            match first_field_index(descriptor.fields@, name@) {
                Some(i) => if i < self.values@.len() && self.values@[i] is Some {
                    r matches Some(v) && *v == self.values@[i]->0
                } else {
                    r is None
                },
                None => r is None,
            },
    {
        proof {
            lemma_first_index_bounds(descriptor.fields@, name@);
        }
        match descriptor.find_first(name) {
            Some(i) => self.get_value_by_index(i),
            None => None,
        }
    }

    /// Set the first field named `name`. An unknown name is an error and
    /// leaves the sample unchanged.
    pub fn set_value(&mut self, descriptor: &Int2DdsTypeDescriptor, name: &str, value: FieldValue) -> (r:
        Result<(), DdsError>)
        requires
            old(self).values@.len() == descriptor.fields@.len(),
        ensures
            final(self).values@.len() == old(self).values@.len(),
            match first_field_index(descriptor.fields@, name@) {
                Some(i) => r is Ok && final(self).values@ == old(self).values@.update(i, Some(value)),
                None => (r matches Err(DdsError::Error(m)) && m@ == field_not_found_message(name@))
                    && final(self).values@ == old(self).values@,
            },
    {
        proof {
            lemma_first_index_bounds(descriptor.fields@, name@);
        }
        match descriptor.find_first(name) {
            Some(i) => {
                self.values.set(i, Some(value));
                Ok(())
            },
            None => Err(DdsError::Error(field_not_found(name))),
        }
    }
}

/// A read gives back what a write wrote: once `set_value` has stored `v`
/// under a name the type has, `get_value` of that name returns `v`, the other
/// fields keep their values, and the sample keeps its length.
pub proof fn law_get_after_set(
    values: Seq<Option<FieldValue>>,
    fields: Seq<FieldDescriptor>,
    name: Seq<char>,
    v: FieldValue,
)
    requires
        values.len() == fields.len(),
    ensures
        first_field_index(fields, name) matches Some(i) ==> {
            let after = values.update(i, Some(v));
            &&& 0 <= i < after.len()
            &&& after[i] == Some(v)
            &&& after.len() == values.len()
            &&& forall|j: int| 0 <= j < values.len() && j != i ==> after[j] == values[j]
        },
{
    lemma_first_index_bounds(fields, name);
}

/// Type support of the generic data type that entities are instantiated
/// with before a real type is registered: it handles no sample itself, so
/// every operation defers to the registered type support.
#[derive(Debug, Clone, Copy)]
pub struct Int2DdsDataTypeSupport;

/// The message of every deferred operation.
pub open spec fn deferred_message() -> Seq<char> {
    "Int2DdsDataTypeSupport: Use registered TypeSupport"@
}

impl Int2DdsDataTypeSupport {
    /// The name of the generic data type.
    pub fn get_type_name(&self) -> (r: &'static str)
        ensures
            r@ == "Int2DdsData"@,
    {
        "Int2DdsData"
    }

    /// No field can be read through this type support.
    pub fn has_field(&self, _field_path: &str) -> (r: bool)
        ensures
            !r,
    {
        false
    }

    /// Reading a field defers to the registered type support.
    pub fn get_field_value(&self, _field_path: &str) -> (r: Result<(), DdsError>)
        ensures
            r matches Err(DdsError::Error(m)) && m@ == deferred_message(),
    {
        Err(DdsError::Error(owned("Int2DdsDataTypeSupport: Use registered TypeSupport")))
    }

    /// Serializing defers to the registered type support.
    pub fn serialize(&self) -> (r: Result<Vec<u8>, DdsError>)
        ensures
            r matches Err(DdsError::Error(m)) && m@ == deferred_message(),
    {
        Err(DdsError::Error(owned("Int2DdsDataTypeSupport: Use registered TypeSupport")))
    }

    /// Deserializing defers to the registered type support.
    pub fn deserialize(&self, _data: &[u8]) -> (r: Result<(), DdsError>)
        ensures
            r matches Err(DdsError::Error(m)) && m@ == deferred_message(),
    {
        Err(DdsError::Error(owned("Int2DdsDataTypeSupport: Use registered TypeSupport")))
    }

    /// The serialized key is empty.
    pub fn serialize_key(&self) -> (r: Result<Vec<u8>, DdsError>)
        ensures
            r matches Ok(v) && v@.len() == 0,
    {
        Ok(Vec::new())
    }

    /// Deserializing a key defers to the registered type support.
    pub fn deserialize_key(&self, _serialized_key: &[u8]) -> (r: Result<(), DdsError>)
        ensures
            r matches Err(DdsError::Error(m)) && m@ == deferred_message(),
    {
        Err(DdsError::Error(owned("Int2DdsDataTypeSupport: Use registered TypeSupport")))
    }

    /// Every sample has the nil key.
    pub fn compute_key(&self) -> (r: [u8; 16])
        ensures
            r@ == Seq::new(16, |i: int| 0u8),
    {
        let r = [0u8; 16];
        assert(r@ =~= Seq::new(16, |i: int| 0u8));
        r
    }

    /// No key is computed.
    pub fn is_compute_key_provided(&self) -> (r: bool)
        ensures
            !r,
    {
        false
    }

    /// The generic type is appendable.
    pub fn get_extensibility_kind(&self) -> (r: ExtensibilityKind)
        ensures
            r == ExtensibilityKind::Appendable,
    {
        ExtensibilityKind::Appendable
    }
}

/// "Field not found: " followed by the name.
pub open spec fn field_not_found_message(name: Seq<char>) -> Seq<char> {
    "Field not found: "@ + name
}

/// The message of an unknown-field error.
pub fn field_not_found(name: &str) -> (m: String)
    ensures
        m@ == field_not_found_message(name@),
{
    let mut m = owned("Field not found: ");
    proof {
        reveal_strlit("Field not found: ");
    }
    m.append(name);
    m
}

} // verus!
