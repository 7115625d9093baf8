//! Instance keys of runtime-defined samples: the bytes of the key fields'
//! values folded by XOR into 16 bytes, byte `k` of the stream landing on
//! position `k % 16`.

use vstd::prelude::*;
use vstd::bytes::{
    lemma_auto_spec_u16_to_from_le_bytes, lemma_auto_spec_u32_to_from_le_bytes, lemma_auto_spec_u64_to_from_le_bytes,
    spec_u16_from_le_bytes, spec_u16_to_le_bytes, spec_u32_from_le_bytes, spec_u32_to_le_bytes, spec_u64_from_le_bytes,
    spec_u64_to_le_bytes,
};
use vstd::string::StringSliceAdditionalSpecFns;
use vstd::utf8::encode_utf8;

use crate::data::{seq_views, opt_views, FieldValue, Int2DdsData, SpecValue};
use crate::encoding::{key_encoding, ser_key_fields};
use crate::type_descriptor::{spec_has_key, FieldDescriptor, FieldTypeInfo};

verus! {

/// The bytes a value contributes to the key: scalars little-endian (booleans
/// as 0 or 1), text as UTF-8, octet buffers as they are, collections item by
/// item, structs their present values in order.
pub open spec fn value_bytes(v: SpecValue) -> Seq<u8>
    decreases v, 0nat,
{
    match v {
        SpecValue::Bool(b) => seq![if b { 1u8 } else { 0u8 }],
        SpecValue::Int8(x) => seq![x as u8],
        SpecValue::UInt8(x) => seq![x],
        SpecValue::Int16(x) => spec_u16_to_le_bytes(x as u16),
        SpecValue::UInt16(x) => spec_u16_to_le_bytes(x),
        SpecValue::Int32(x) => spec_u32_to_le_bytes(x as u32),
        SpecValue::UInt32(x) => spec_u32_to_le_bytes(x),
        SpecValue::Int64(x) => spec_u64_to_le_bytes(x as u64),
        SpecValue::UInt64(x) => spec_u64_to_le_bytes(x),
        SpecValue::Float32(x) => spec_u32_to_le_bytes(x),
        SpecValue::Float64(x) => spec_u64_to_le_bytes(x),
        SpecValue::Str(c) => encode_utf8(c),
        SpecValue::Bytes(b) => b,
        SpecValue::Sequence(items) => items_bytes(items, items.len()),
        SpecValue::Array(items) => items_bytes(items, items.len()),
        SpecValue::Struct(vals) => present_bytes(vals, vals.len()),
    }
}

/// The bytes of the first `n` items.
pub open spec fn items_bytes(items: Seq<SpecValue>, n: nat) -> Seq<u8>
    decreases items, n,
{
    if n == 0 || n > items.len() {
        Seq::empty()
    } else {
        items_bytes(items, (n - 1) as nat) + value_bytes(items[n - 1])
    }
}

/// The bytes of the present values among the first `n`.
pub open spec fn present_bytes(vals: Seq<Option<SpecValue>>, n: nat) -> Seq<u8>
    decreases vals, n,
{
    if n == 0 || n > vals.len() {
        Seq::empty()
    } else {
        match vals[n - 1] {
            Some(x) => present_bytes(vals, (n - 1) as nat) + value_bytes(x),
            None => present_bytes(vals, (n - 1) as nat),
        }
    }
}

/// The bytes of the key fields among the first `n`, absent values left out.
pub open spec fn key_bytes(vals: Seq<Option<SpecValue>>, fields: Seq<FieldDescriptor>, n: nat) -> Seq<u8>
    decreases n,
{
    if n == 0 || n > fields.len() {
        Seq::empty()
    } else {
        let prefix = key_bytes(vals, fields, (n - 1) as nat);
        if fields[n - 1].is_key && n - 1 < vals.len() && vals[n - 1] is Some {
            prefix + value_bytes(vals[n - 1]->0)
        } else {
            prefix
        }
    }
}

/// `h` with byte `k` of `bytes` XORed into position `(idx + k) % 16`.
pub open spec fn xor_fold(h: Seq<u8>, idx: nat, bytes: Seq<u8>) -> Seq<u8>
    decreases bytes.len(),
{
    if bytes.len() == 0 {
        h
    } else {
        let h1 = xor_fold(h, idx, bytes.drop_last());
        let j = ((idx + bytes.len() - 1) % 16) as int;
        h1.update(j, h1[j] ^ bytes.last())
    }
}

/// Sixteen zero bytes: the nil instance handle.
pub open spec fn nil_key() -> Seq<u8> {
    Seq::new(16, |i: int| 0u8)
}

/// The key of a sample: nil when the type has no key field, else the XOR
/// fold of its key bytes.
pub open spec fn spec_compute_key(vals: Seq<Option<SpecValue>>, fields: Seq<FieldDescriptor>) -> Seq<u8> {
    if !spec_has_key(fields) {
        nil_key()
    } else {
        xor_fold(nil_key(), 0, key_bytes(vals, fields, fields.len()))
    }
}

/// Folding keeps sixteen bytes.
pub proof fn lemma_xor_fold_len(h: Seq<u8>, idx: nat, bytes: Seq<u8>)
    requires
        h.len() == 16,
    ensures
        xor_fold(h, idx, bytes).len() == 16,
    decreases bytes.len(),
{
    if bytes.len() > 0 {
        lemma_xor_fold_len(h, idx, bytes.drop_last());
    }
}

/// Folding two byte strings one after the other folds their concatenation.
pub proof fn lemma_xor_fold_append(h: Seq<u8>, idx: nat, a: Seq<u8>, b: Seq<u8>)
    ensures
        xor_fold(h, idx, a + b) == xor_fold(xor_fold(h, idx, a), idx + a.len(), b),
    decreases b.len(),
{
    if b.len() == 0 {
        assert(a + b =~= a);
    } else {
        assert((a + b).drop_last() =~= a + b.drop_last());
        lemma_xor_fold_append(h, idx, a, b.drop_last());
    }
}

/// XOR one byte into the key at position `idx % 16` and advance `idx`.
pub fn hash_byte(hash: &mut [u8; 16], hash_idx: &mut usize, byte: u8)
    requires
        *old(hash_idx) < usize::MAX,
    ensures
        final(hash)@ == xor_fold(old(hash)@, *old(hash_idx) as nat, seq![byte]),
        *final(hash_idx) == *old(hash_idx) + 1,
{
    let ghost h0 = hash@;
    let j = *hash_idx % 16;
    hash[j] = hash[j] ^ byte;
    proof {
        assert(seq![byte].drop_last() =~= Seq::<u8>::empty());
        assert(xor_fold(h0, *old(hash_idx) as nat, Seq::<u8>::empty()) == h0);
    }
    assert(hash@ =~= h0.update(j as int, h0[j as int] ^ byte));
    *hash_idx = *hash_idx + 1;
}

/// XOR a byte string into the key, byte `k` at position `(idx + k) % 16`,
/// and advance `idx` past it.
pub fn hash_bytes(hash: &mut [u8; 16], hash_idx: &mut usize, bytes: &[u8])
    requires
        *old(hash_idx) + bytes@.len() <= usize::MAX,
    ensures
        final(hash)@ == xor_fold(old(hash)@, *old(hash_idx) as nat, bytes@),
        *final(hash_idx) == *old(hash_idx) + bytes@.len(),
{
    let ghost h0 = hash@;
    let ghost i0 = *hash_idx;
    let mut k: usize = 0;
    while k < bytes.len()
        invariant
            k <= bytes@.len(),
            i0 + bytes@.len() <= usize::MAX,
            *hash_idx == i0 + k,
            hash@ == xor_fold(h0, i0 as nat, bytes@.take(k as int)),
        decreases bytes@.len() - k,
    {
        proof {
            assert(bytes@.take(k + 1).drop_last() =~= bytes@.take(k as int));
        }
        let j = *hash_idx % 16;
        hash[j] = hash[j] ^ bytes[k];
        *hash_idx = *hash_idx + 1;
        k += 1;
    }
    assert(bytes@.take(k as int) =~= bytes@);
}

/// XOR the key bytes of a value into the key and advance `idx` past them.
pub fn hash_value_direct(value: &FieldValue, hash: &mut [u8; 16], hash_idx: &mut usize)
    requires
        *old(hash_idx) + value_bytes(value@).len() <= usize::MAX,
    ensures
        final(hash)@ == xor_fold(old(hash)@, *old(hash_idx) as nat, value_bytes(value@)),
        *final(hash_idx) == *old(hash_idx) + value_bytes(value@).len(),
    decreases value,
{
    match value {
        FieldValue::Bool(v) => hash_byte(hash, hash_idx, if *v { 1u8 } else { 0u8 }),
        FieldValue::Int8(v) => hash_byte(hash, hash_idx, *v as u8),
        FieldValue::UInt8(v) => hash_byte(hash, hash_idx, *v),
        FieldValue::Int16(v) => {
            let b = vstd::bytes::u16_to_le_bytes(*v as u16);
            hash_bytes(hash, hash_idx, b.as_slice());
        },
        FieldValue::UInt16(v) => {
            let b = vstd::bytes::u16_to_le_bytes(*v);
            hash_bytes(hash, hash_idx, b.as_slice());
        },
        FieldValue::Int32(v) => {
            let b = vstd::bytes::u32_to_le_bytes(*v as u32);
            hash_bytes(hash, hash_idx, b.as_slice());
        },
        FieldValue::UInt32(v) => {
            let b = vstd::bytes::u32_to_le_bytes(*v);
            hash_bytes(hash, hash_idx, b.as_slice());
        },
        FieldValue::Int64(v) => {
            let b = vstd::bytes::u64_to_le_bytes(*v as u64);
            hash_bytes(hash, hash_idx, b.as_slice());
        },
        FieldValue::UInt64(v) => {
            let b = vstd::bytes::u64_to_le_bytes(*v);
            hash_bytes(hash, hash_idx, b.as_slice());
        },
        FieldValue::Float32(v) => {
            let b = vstd::bytes::u32_to_le_bytes(*v);
            hash_bytes(hash, hash_idx, b.as_slice());
        },
        FieldValue::Float64(v) => {
            let b = vstd::bytes::u64_to_le_bytes(*v);
            hash_bytes(hash, hash_idx, b.as_slice());
        },
        FieldValue::String(s) => hash_bytes(hash, hash_idx, s.as_str().as_bytes()),
        FieldValue::Bytes(b) => hash_bytes(hash, hash_idx, b.as_slice()),
        FieldValue::Sequence(items) => hash_items(items, hash, hash_idx),
        FieldValue::Array(items) => hash_items(items, hash, hash_idx),
        FieldValue::Struct(nested) => hash_present(&nested.values, hash, hash_idx),
    }
}

/// The bytes of a prefix of the items are a prefix of all their bytes.
pub proof fn lemma_items_bytes_prefix(items: Seq<SpecValue>, k: nat, n: nat)
    requires
        k <= n <= items.len(),
    ensures
        items_bytes(items, k).len() <= items_bytes(items, n).len(),
    decreases n - k,
{
    if k < n {
        lemma_items_bytes_prefix(items, k, (n - 1) as nat);
    }
}

/// The bytes of the present values among a prefix are a prefix of them all.
pub proof fn lemma_present_bytes_prefix(vals: Seq<Option<SpecValue>>, k: nat, n: nat)
    requires
        k <= n <= vals.len(),
    ensures
        present_bytes(vals, k).len() <= present_bytes(vals, n).len(),
    decreases n - k,
{
    if k < n {
        lemma_present_bytes_prefix(vals, k, (n - 1) as nat);
    }
}

/// XOR the key bytes of every item into the key.
pub fn hash_items(items: &Vec<FieldValue>, hash: &mut [u8; 16], hash_idx: &mut usize)
    requires
        *old(hash_idx) + items_bytes(seq_views(items@), items@.len()).len() <= usize::MAX,
    ensures
        final(hash)@ == xor_fold(old(hash)@, *old(hash_idx) as nat, items_bytes(seq_views(items@), items@.len())),
        *final(hash_idx) == *old(hash_idx) + items_bytes(seq_views(items@), items@.len()).len(),
    decreases *items,
{
    let ghost h0 = hash@;
    let ghost i0 = *hash_idx;
    let ghost vs = seq_views(items@);
    let mut k: usize = 0;
    while k < items.len()
        invariant
            k <= items@.len(),
            vs == seq_views(items@),
            i0 + items_bytes(vs, items@.len()).len() <= usize::MAX,
            *hash_idx == i0 + items_bytes(vs, k as nat).len(),
            hash@ == xor_fold(h0, i0 as nat, items_bytes(vs, k as nat)),
        decreases items@.len() - k,
    {
        proof {
            vstd::std_specs::vec::axiom_vec_index_decreases(*items, k as int);
            lemma_items_bytes_prefix(vs, (k + 1) as nat, items@.len());
            assert(vs[k as int] == items@[k as int]@);
            lemma_xor_fold_append(h0, i0 as nat, items_bytes(vs, k as nat), value_bytes(vs[k as int]));
        }
        hash_value_direct(&items[k], hash, hash_idx);
        k += 1;
    }
}

/// XOR the key bytes of every present value into the key.
pub fn hash_present(values: &Vec<Option<FieldValue>>, hash: &mut [u8; 16], hash_idx: &mut usize)
    requires
        *old(hash_idx) + present_bytes(opt_views(values@), values@.len()).len() <= usize::MAX,
    ensures
        final(hash)@ == xor_fold(
            old(hash)@,
            *old(hash_idx) as nat,
            present_bytes(opt_views(values@), values@.len()),
        ),
        *final(hash_idx) == *old(hash_idx) + present_bytes(opt_views(values@), values@.len()).len(),
    decreases *values,
{
    let ghost h0 = hash@;
    let ghost i0 = *hash_idx;
    let ghost vs = opt_views(values@);
    let mut k: usize = 0;
    while k < values.len()
        invariant
            k <= values@.len(),
            vs == opt_views(values@),
            i0 + present_bytes(vs, values@.len()).len() <= usize::MAX,
            *hash_idx == i0 + present_bytes(vs, k as nat).len(),
            hash@ == xor_fold(h0, i0 as nat, present_bytes(vs, k as nat)),
        decreases values@.len() - k,
    {
        proof {
            lemma_present_bytes_prefix(vs, (k + 1) as nat, values@.len());
        }
        match &values[k] {
            Some(x) => {
                proof {
                    vstd::std_specs::vec::axiom_vec_index_decreases(*values, k as int);
                    assert(vs[k as int] == Some(x@));
                    lemma_xor_fold_append(h0, i0 as nat, present_bytes(vs, k as nat), value_bytes(x@));
                }
                hash_value_direct(x, hash, hash_idx);
            },
            None => {},
        }
        k += 1;
    }
}

/// The key of a sample: nil when the type has no key field, else the key
/// fields' present values folded into sixteen bytes.
pub fn sample_key(fields: &Vec<FieldDescriptor>, data: &Int2DdsData) -> (r: [u8; 16])
    requires
        key_bytes(data@, fields@, fields@.len()).len() <= usize::MAX,
    ensures
        r@ == spec_compute_key(data@, fields@),
{
    let mut hash: [u8; 16] = [0u8; 16];
    assert(hash@ =~= nil_key());
    let mut has_key = false;
    let mut i: usize = 0;
    while i < fields.len()
        invariant
            i <= fields@.len(),
            has_key == exists|j: int| 0 <= j < i && #[trigger] fields@[j].is_key,
        decreases fields@.len() - i,
    {
        if fields[i].is_key {
            has_key = true;
        }
        i += 1;
    }
    if !has_key {
        return hash;
    }
    let ghost vals = data@;
    let mut hash_idx: usize = 0;
    let mut k: usize = 0;
    while k < fields.len()
        invariant
            k <= fields@.len(),
            vals == data@,
            key_bytes(vals, fields@, fields@.len()).len() <= usize::MAX,
            hash_idx == key_bytes(vals, fields@, k as nat).len(),
            hash@ == xor_fold(nil_key(), 0, key_bytes(vals, fields@, k as nat)),
        decreases fields@.len() - k,
    {
        proof {
            lemma_key_bytes_prefix(vals, fields@, (k + 1) as nat, fields@.len());
        }
        if fields[k].is_key && k < data.values.len() {
            match &data.values[k] {
                Some(x) => {
                    proof {
                        assert(vals[k as int] == Some(x@));
                        lemma_xor_fold_append(nil_key(), 0, key_bytes(vals, fields@, k as nat), value_bytes(x@));
                    }
                    hash_value_direct(x, &mut hash, &mut hash_idx);
                },
                None => {},
            }
        }
        k += 1;
    }
    hash
}

/// The key bytes of a prefix of the fields are no longer than those of all.
pub proof fn lemma_key_bytes_prefix(vals: Seq<Option<SpecValue>>, fields: Seq<FieldDescriptor>, k: nat, n: nat)
    requires
        k <= n <= fields.len(),
    ensures
        key_bytes(vals, fields, k).len() <= key_bytes(vals, fields, n).len(),
    decreases n - k,
{
    if k < n {
        lemma_key_bytes_prefix(vals, fields, k, (n - 1) as nat);
    }
}

/// The key bytes depend only on the values of the key fields.
proof fn lemma_key_bytes_agree(
    a: Seq<Option<SpecValue>>,
    b: Seq<Option<SpecValue>>,
    fields: Seq<FieldDescriptor>,
    n: nat,
)
    requires
        a.len() == fields.len(),
        b.len() == fields.len(),
        forall|i: int| 0 <= i < fields.len() && #[trigger] fields[i].is_key ==> a[i] == b[i],
    ensures
        key_bytes(a, fields, n) == key_bytes(b, fields, n),
    decreases n,
{
    if n > 0 && n <= fields.len() {
        lemma_key_bytes_agree(a, b, fields, (n - 1) as nat);
        if fields[n - 1].is_key {
            assert(a[n - 1] == b[n - 1]);
        }
    }
}

/// Two samples of a type whose key fields hold the same values have the same
/// key, whatever their other fields hold.
pub proof fn law_key_depends_only_on_key_fields(
    a: Seq<Option<SpecValue>>,
    b: Seq<Option<SpecValue>>,
    fields: Seq<FieldDescriptor>,
)
    requires
        a.len() == fields.len(),
        b.len() == fields.len(),
        forall|i: int| 0 <= i < fields.len() && #[trigger] fields[i].is_key ==> a[i] == b[i],
    ensures
        spec_compute_key(a, fields) == spec_compute_key(b, fields),
        key_bytes(a, fields, fields.len()) == key_bytes(b, fields, fields.len()),
{
    lemma_key_bytes_agree(a, b, fields, fields.len());
}

/// Without key fields nothing is hashed.
proof fn lemma_no_key_bytes(vals: Seq<Option<SpecValue>>, fields: Seq<FieldDescriptor>, n: nat)
    requires
        !spec_has_key(fields),
    ensures
        key_bytes(vals, fields, n).len() == 0,
    decreases n,
{
    if n > 0 && n <= fields.len() {
        lemma_no_key_bytes(vals, fields, (n - 1) as nat);
        assert(!fields[n - 1].is_key);
    }
}

/// A type without key fields gives every sample the nil key, and hashes no
/// byte on the way.
pub proof fn law_no_key_fields_nil_key(vals: Seq<Option<SpecValue>>, fields: Seq<FieldDescriptor>)
    requires
        !spec_has_key(fields),
    ensures
        spec_compute_key(vals, fields) == nil_key(),
        key_bytes(vals, fields, fields.len()).len() == 0,
{
    lemma_no_key_bytes(vals, fields, fields.len());
}

/// The serialized key fields of the first `n` fields agree for samples that
/// agree on their key fields.
proof fn lemma_key_fields_agree(a: Seq<Option<SpecValue>>, b: Seq<Option<SpecValue>>, fields: Seq<FieldDescriptor>, n: nat)
    requires
        a.len() == fields.len(),
        b.len() == fields.len(),
        forall|i: int| 0 <= i < fields.len() && #[trigger] fields[i].is_key ==> a[i] == b[i],
    ensures
        ser_key_fields(a, fields, 0, n) == ser_key_fields(b, fields, 0, n),
    decreases n,
{
    if n > 0 && n <= fields.len() {
        lemma_key_fields_agree(a, b, fields, (n - 1) as nat);
        if fields[n - 1].is_key {
            assert(a[n - 1] == b[n - 1]);
        }
    }
}

/// Two samples of a type whose key fields hold the same values serialize to
/// the same key bytes (or fail alike), whatever their other fields hold.
pub proof fn law_serialized_key_depends_only_on_key_fields(
    a: Seq<Option<SpecValue>>,
    b: Seq<Option<SpecValue>>,
    fields: Seq<FieldDescriptor>,
)
    requires
        a.len() == fields.len(),
        b.len() == fields.len(),
        forall|i: int| 0 <= i < fields.len() && #[trigger] fields[i].is_key ==> a[i] == b[i],
    ensures
        key_encoding(a, fields) == key_encoding(b, fields),
{
    lemma_key_fields_agree(a, b, fields, fields.len());
}

/// What hashing one value does to the key and its position.
pub open spec fn hash_step(state: (Seq<u8>, nat), v: SpecValue) -> (Seq<u8>, nat) {
    (xor_fold(state.0, state.1, value_bytes(v)), state.1 + value_bytes(v).len())
}

/// Hashing the first `n` items one after the other.
pub open spec fn hash_each(state: (Seq<u8>, nat), items: Seq<SpecValue>, n: nat) -> (Seq<u8>, nat)
    decreases n,
{
    if n == 0 || n > items.len() {
        state
    } else {
        hash_step(hash_each(state, items, (n - 1) as nat), items[n - 1])
    }
}

/// Hashing the present values among the first `n` one after the other,
/// absent ones skipped.
pub open spec fn hash_each_present(state: (Seq<u8>, nat), vals: Seq<Option<SpecValue>>, n: nat) -> (Seq<u8>, nat)
    decreases n,
{
    if n == 0 || n > vals.len() {
        state
    } else {
        match vals[n - 1] {
            Some(x) => hash_step(hash_each_present(state, vals, (n - 1) as nat), x),
            None => hash_each_present(state, vals, (n - 1) as nat),
        }
    }
}

/// Hashing the first `n` items in turn folds their bytes in one go.
proof fn lemma_hash_each(state: (Seq<u8>, nat), items: Seq<SpecValue>, n: nat)
    ensures
        hash_each(state, items, n) == (
            xor_fold(state.0, state.1, items_bytes(items, n)),
            state.1 + items_bytes(items, n).len(),
        ),
    decreases n,
{
    if n == 0 || n > items.len() {
        assert(xor_fold(state.0, state.1, Seq::<u8>::empty()) == state.0);
    } else {
        lemma_hash_each(state, items, (n - 1) as nat);
        lemma_xor_fold_append(state.0, state.1, items_bytes(items, (n - 1) as nat), value_bytes(items[n - 1]));
    }
}

/// Hashing the present values among the first `n` in turn folds their bytes
/// in one go.
proof fn lemma_hash_each_present(state: (Seq<u8>, nat), vals: Seq<Option<SpecValue>>, n: nat)
    ensures
        hash_each_present(state, vals, n) == (
            xor_fold(state.0, state.1, present_bytes(vals, n)),
            state.1 + present_bytes(vals, n).len(),
        ),
    decreases n,
{
    if n == 0 || n > vals.len() {
        assert(xor_fold(state.0, state.1, Seq::<u8>::empty()) == state.0);
    } else {
        lemma_hash_each_present(state, vals, (n - 1) as nat);
        if let Some(x) = vals[n - 1] {
            lemma_xor_fold_append(state.0, state.1, present_bytes(vals, (n - 1) as nat), value_bytes(x));
        }
    }
}

/// Hashing a sequence or an array hashes its items one after the other, and
/// hashing a struct hashes its present values one after the other in field
/// order, absent ones skipped: `hash_value_direct` on the collection leaves
/// the key and its position as the calls on its parts in turn would.
pub proof fn law_hash_collections_item_by_item(state: (Seq<u8>, nat), items: Seq<SpecValue>, vals: Seq<
    Option<SpecValue>,
>)
    ensures
        hash_step(state, SpecValue::Sequence(items)) == hash_each(state, items, items.len()),
        hash_step(state, SpecValue::Array(items)) == hash_each(state, items, items.len()),
        hash_step(state, SpecValue::Struct(vals)) == hash_each_present(state, vals, vals.len()),
{
    lemma_hash_each(state, items, items.len());
    lemma_hash_each_present(state, vals, vals.len());
}

/// Every scalar contributes its value and nothing else to the key: reading
/// its key bytes back at the scalar's width gives the value (booleans 0 or 1,
/// signed integers through their two's-complement pattern, floats through
/// their bit pattern), and text contributes bytes that decode to the text.
/// So two values of one scalar type contribute the same bytes only if they
/// are equal.
pub proof fn law_scalar_key_bytes_read_back(
    b: bool,
    i8v: i8,
    u8v: u8,
    i16v: i16,
    u16v: u16,
    i32v: i32,
    u32v: u32,
    i64v: i64,
    u64v: u64,
    text: Seq<char>,
)
    ensures
        value_bytes(SpecValue::Bool(b)).len() == 1 && (value_bytes(SpecValue::Bool(b))[0] == 1u8 <==> b)
            && (value_bytes(SpecValue::Bool(b))[0] == 0u8 <==> !b),
        value_bytes(SpecValue::Int8(i8v)).len() == 1 && value_bytes(SpecValue::Int8(i8v))[0] as i8 == i8v,
        value_bytes(SpecValue::UInt8(u8v)).len() == 1 && value_bytes(SpecValue::UInt8(u8v))[0] == u8v,
        value_bytes(SpecValue::Int16(i16v)).len() == 2 && spec_u16_from_le_bytes(value_bytes(SpecValue::Int16(i16v)))
            as i16 == i16v,
        value_bytes(SpecValue::UInt16(u16v)).len() == 2 && spec_u16_from_le_bytes(value_bytes(SpecValue::UInt16(u16v)))
            == u16v,
        value_bytes(SpecValue::Int32(i32v)).len() == 4 && spec_u32_from_le_bytes(value_bytes(SpecValue::Int32(i32v)))
            as i32 == i32v,
        value_bytes(SpecValue::UInt32(u32v)).len() == 4 && spec_u32_from_le_bytes(value_bytes(SpecValue::UInt32(u32v)))
            == u32v,
        value_bytes(SpecValue::Float32(u32v)).len() == 4 && spec_u32_from_le_bytes(value_bytes(SpecValue::Float32(u32v)))
            == u32v,
        value_bytes(SpecValue::Int64(i64v)).len() == 8 && spec_u64_from_le_bytes(value_bytes(SpecValue::Int64(i64v)))
            as i64 == i64v,
        value_bytes(SpecValue::UInt64(u64v)).len() == 8 && spec_u64_from_le_bytes(value_bytes(SpecValue::UInt64(u64v)))
            == u64v,
        value_bytes(SpecValue::Float64(u64v)).len() == 8 && spec_u64_from_le_bytes(value_bytes(SpecValue::Float64(u64v)))
            == u64v,
        vstd::utf8::decode_utf8(value_bytes(SpecValue::Str(text))) == text,
{
    lemma_auto_spec_u16_to_from_le_bytes();
    lemma_auto_spec_u32_to_from_le_bytes();
    lemma_auto_spec_u64_to_from_le_bytes();
    vstd::utf8::encode_utf8_decode_utf8(text);
    let a16 = i16v as u16;
    let a32 = i32v as u32;
    let a64 = i64v as u64;
    assert(spec_u16_to_le_bytes(a16).len() == 2);
    assert(spec_u16_to_le_bytes(u16v).len() == 2);
    assert(spec_u32_to_le_bytes(a32).len() == 4);
    assert(spec_u32_to_le_bytes(u32v).len() == 4);
    assert(spec_u64_to_le_bytes(a64).len() == 8);
    assert(spec_u64_to_le_bytes(u64v).len() == 8);
    assert(spec_u16_from_le_bytes(spec_u16_to_le_bytes(a16)) == a16);
    assert(spec_u16_from_le_bytes(spec_u16_to_le_bytes(u16v)) == u16v);
    assert(spec_u32_from_le_bytes(spec_u32_to_le_bytes(a32)) == a32);
    assert(spec_u32_from_le_bytes(spec_u32_to_le_bytes(u32v)) == u32v);
    assert(spec_u64_from_le_bytes(spec_u64_to_le_bytes(a64)) == a64);
    assert(spec_u64_from_le_bytes(spec_u64_to_le_bytes(u64v)) == u64v);
    assert((i8v as u8) as i8 == i8v) by (bit_vector);
    assert((i16v as u16) as i16 == i16v) by (bit_vector);
    assert((i32v as u32) as i32 == i32v) by (bit_vector);
    assert((i64v as u64) as i64 == i64v) by (bit_vector);
}

/// Sixteen or fewer bytes folded into the nil key land unchanged in the
/// first positions; the rest stay zero.
proof fn lemma_short_fold(bytes: Seq<u8>)
    requires
        bytes.len() <= 16,
    ensures
        xor_fold(nil_key(), 0, bytes) == bytes + Seq::new((16 - bytes.len()) as nat, |i: int| 0u8),
    decreases bytes.len(),
{
    if bytes.len() == 0 {
        assert(bytes + Seq::new(16, |i: int| 0u8) =~= nil_key());
    } else {
        let d = bytes.drop_last();
        lemma_short_fold(d);
        let h1 = d + Seq::new((16 - d.len()) as nat, |i: int| 0u8);
        let j = bytes.len() - 1;
        assert(((0 + bytes.len() - 1) % 16) as int == j);
        assert(h1[j] == 0u8);
        let x = bytes.last();
        assert(0u8 ^ x == x) by (bit_vector);
        assert(h1.update(j, h1[j] ^ x) =~= bytes + Seq::new((16 - bytes.len()) as nat, |i: int| 0u8));
    }
}

/// A type whose only field is an `Int32` key gives each sample its id's four
/// little-endian bytes in the first key positions, the rest zero; reading
/// them back gives the id, so distinct ids get distinct keys.
pub proof fn law_int32_key_is_the_id(fields: Seq<FieldDescriptor>, x: i32, y: i32)
    requires
        fields.len() == 1,
        fields[0].is_key,
        fields[0].field_type == FieldTypeInfo::Int32,
    ensures
        spec_compute_key(seq![Some(SpecValue::Int32(x))], fields).len() == 16,
        spec_u32_from_le_bytes(spec_compute_key(seq![Some(SpecValue::Int32(x))], fields).take(4)) as i32 == x,
        forall|k: int| 4 <= k < 16 ==> spec_compute_key(seq![Some(SpecValue::Int32(x))], fields)[k] == 0u8,
        x != y ==> spec_compute_key(seq![Some(SpecValue::Int32(x))], fields) != spec_compute_key(
            seq![Some(SpecValue::Int32(y))],
            fields,
        ),
{
    law_scalar_key_bytes_read_back(false, 0, 0, 0, 0, x, 0, 0, 0, Seq::empty());
    law_scalar_key_bytes_read_back(false, 0, 0, 0, 0, y, 0, 0, 0, Seq::empty());
    assert(spec_has_key(fields)) by {
        assert(fields[0].is_key);
    }
    let vx = seq![Some(SpecValue::Int32(x))];
    let vy = seq![Some(SpecValue::Int32(y))];
    let bx = value_bytes(SpecValue::Int32(x));
    let by = value_bytes(SpecValue::Int32(y));
    assert(key_bytes(vx, fields, 0) =~= Seq::<u8>::empty());
    assert(key_bytes(vx, fields, 1) =~= bx);
    assert(key_bytes(vy, fields, 0) =~= Seq::<u8>::empty());
    assert(key_bytes(vy, fields, 1) =~= by);
    lemma_short_fold(bx);
    lemma_short_fold(by);
    let kx = spec_compute_key(vx, fields);
    let ky = spec_compute_key(vy, fields);
    assert(kx.take(4) =~= bx);
    assert(ky.take(4) =~= by);
    if x != y && kx == ky {
        assert(kx.take(4) == ky.take(4));
    }
}

} // verus!
