//! Reading back what was written: a well-typed sample is recovered from its
//! XCDR1 and XCDR2 encodings.

use vstd::prelude::*;
use vstd::bytes::{
    lemma_auto_spec_u16_to_from_le_bytes, lemma_auto_spec_u32_to_from_le_bytes,
    lemma_auto_spec_u64_to_from_le_bytes,
};
use vstd::utf8::{encode_utf8, encode_utf8_decode_utf8, encode_utf8_valid_utf8};

use crate::cdr::{aligned, octets_read, octets_write, pad_len, read_at, string_read, string_write, u32_le, zeros};
use crate::codec_spec::{
    bulk_write, de_fields, de_items, de_value, is_bulk_type, is_scalar_type, keep_matching, scalar_align,
    scalar_from, scalar_le, scalar_matches, scalar_read, scalar_size, scalar_write, scalars_write, ser_fields,
    ser_items, ser_value, SpecCodecError,
};
use crate::data::SpecValue;
use crate::encoding::{
    cdr_decoding, cdr_encoding, cdr_header, de_members, emheader, first_missing, header_le, lemma_member_index_is,
    member_step, no_values, ser_members, xcdr2_decoding, xcdr2_encoding, xcdr2_header, MemberStep,
    SENTINEL_MEMBER_ID,
};
use crate::type_descriptor::{
    ids_follow_order, ExtensibilityKind, FieldDescriptor, FieldTypeInfo, Int2DdsTypeDescriptor,
};

verus! {

/// The value has the shape of its type and every length fits its `u32`
/// length field; an octet sequence is held as one buffer.
pub open spec fn wt_value(v: SpecValue, t: FieldTypeInfo) -> bool
    decreases v,
{
    if is_scalar_type(t) {
        scalar_matches(v, t)
    } else {
        match t {
            FieldTypeInfo::String { .. } => match v {
                SpecValue::Str(c) => encode_utf8(c).len() < u32::MAX,
                _ => false,
            },
            FieldTypeInfo::Bytes { .. } => match v {
                SpecValue::Bytes(b) => b.len() <= u32::MAX,
                _ => false,
            },
            FieldTypeInfo::Sequence { element_type, .. } => if *element_type is UInt8 {
                match v {
                    SpecValue::Bytes(b) => b.len() <= u32::MAX,
                    _ => false,
                }
            } else {
                match v {
                    SpecValue::Sequence(items) => items.len() <= u32::MAX && forall|i: int|
                        0 <= i < items.len() ==> wt_value(#[trigger] items[i], *element_type),
                    _ => false,
                }
            },
            FieldTypeInfo::Array { element_type, length } => match v {
                SpecValue::Array(items) => items.len() == length && forall|i: int|
                    0 <= i < items.len() ==> wt_value(#[trigger] items[i], *element_type),
                _ => false,
            },
            FieldTypeInfo::Struct { descriptor } => match v {
                SpecValue::Struct(vals) => vals.len() == descriptor.fields@.len() && forall|i: int|
                    0 <= i < vals.len() ==> (#[trigger] vals[i] matches Some(x) && wt_value(
                        x,
                        descriptor.fields@[i].field_type,
                    )),
                _ => false,
            },
            _ => false,
        }
    }
}

/// Every field of the sample has a well-typed value.
pub open spec fn wt_sample(vals: Seq<Option<SpecValue>>, fields: Seq<FieldDescriptor>) -> bool {
    &&& vals.len() == fields.len()
    &&& forall|i: int|
        0 <= i < vals.len() ==> (#[trigger] vals[i] matches Some(x) && wt_value(x, fields[i].field_type))
}

/// `buf` holds `b` at `pos`.
pub open spec fn contains_at(buf: Seq<u8>, pos: nat, b: Seq<u8>) -> bool {
    pos + b.len() <= buf.len() && buf.subrange(pos as int, (pos + b.len()) as int) == b
}

/// Holding a concatenation means holding each part in turn.
pub proof fn lemma_contains_split(buf: Seq<u8>, pos: nat, a: Seq<u8>, b: Seq<u8>)
    requires
        contains_at(buf, pos, a + b),
    ensures
        contains_at(buf, pos, a),
        contains_at(buf, pos + a.len(), b),
{
    let p = pos as int;
    let na = a.len() as int;
    let nb = b.len() as int;
    let whole = buf.subrange(p, p + na + nb);
    assert forall|i: int| 0 <= i < na implies buf.subrange(p, p + na)[i] == a[i] by {
        assert(whole[i] == (a + b)[i]);
    }
    assert(buf.subrange(p, p + na) =~= a);
    assert forall|i: int| 0 <= i < nb implies buf.subrange(p + na, p + na + nb)[i] == b[i] by {
        assert(whole[na + i] == (a + b)[na + i]);
    }
    assert(buf.subrange(p + na, p + na + nb) =~= b);
}

/// Reading an aligned chunk finds the bytes written there.
pub proof fn lemma_read_aligned(buf: Seq<u8>, pos: nat, align: nat, b: Seq<u8>)
    requires
        contains_at(buf, pos, aligned(pos, align, b)),
    ensures
        read_at(buf, pos, align, b.len()) == Some((b, pos + aligned(pos, align, b).len())),
{
    lemma_contains_split(buf, pos, zeros(pad_len(pos, align)), b);
}

/// A scalar reads back as written.
pub proof fn lemma_scalar_round_trip(v: SpecValue, t: FieldTypeInfo, buf: Seq<u8>, pos: nat, x2: bool)
    requires
        is_scalar_type(t),
        scalar_matches(v, t),
        contains_at(buf, pos, scalar_write(v, t, pos, x2)),
    ensures
        scalar_read(t, buf, pos, true, x2) == Some((v, pos + scalar_write(v, t, pos, x2).len())),
{
    lemma_auto_spec_u16_to_from_le_bytes();
    lemma_auto_spec_u32_to_from_le_bytes();
    lemma_auto_spec_u64_to_from_le_bytes();
    let le = scalar_le(v);
    assert(le.len() == scalar_size(t));
    lemma_read_aligned(buf, pos, scalar_align(t, x2), le);
    match v {
        SpecValue::Bool(b) => {},
        SpecValue::Int8(x) => {
            assert((x as u8) as i8 == x) by (bit_vector);
        },
        SpecValue::Int16(x) => {
            assert((x as u16) as i16 == x) by (bit_vector);
        },
        SpecValue::Int32(x) => {
            assert((x as u32) as i32 == x) by (bit_vector);
        },
        SpecValue::Int64(x) => {
            assert((x as u64) as i64 == x) by (bit_vector);
        },
        _ => {},
    }
    assert(scalar_from(t, le, true) == v);
}

/// When every item has the element type, none is dropped.
pub proof fn lemma_keep_all(items: Seq<SpecValue>, t: FieldTypeInfo)
    requires
        forall|i: int| 0 <= i < items.len() ==> scalar_matches(#[trigger] items[i], t),
    ensures
        keep_matching(items, t) == items,
    decreases items.len(),
{
    if items.len() > 0 {
        lemma_keep_all(items.drop_last(), t);
        assert(items.drop_last().push(items.last()) =~= items);
    }
}

/// Scalars written in bulk are the same bytes as the items written one by one.
pub proof fn lemma_scalars_as_items(items: Seq<SpecValue>, t: FieldTypeInfo, pos: nat, x2: bool, n: nat)
    requires
        is_scalar_type(t),
        n <= items.len(),
        forall|i: int| 0 <= i < items.len() ==> scalar_matches(#[trigger] items[i], t),
    ensures
        ser_items(items, t, pos, x2, n) == Ok::<Seq<u8>, SpecCodecError>(scalars_write(items.take(n as int), t, pos, x2)),
    decreases n,
{
    if n > 0 {
        lemma_scalars_as_items(items, t, pos, x2, (n - 1) as nat);
        assert(items.take(n as int).drop_last() =~= items.take(n - 1));
        assert(items.take(n as int).last() == items[n - 1]);
        assert(scalar_matches(items[n - 1], t));
        let prev = scalars_write(items.take(n - 1), t, pos, x2);
        assert(scalars_write(items.take(n as int), t, pos, x2) == prev + scalar_write(
            items[n - 1],
            t,
            pos + prev.len(),
            x2,
        ));
        assert(ser_value(items[n - 1], t, pos + prev.len(), x2) == Ok::<Seq<u8>, SpecCodecError>(
            scalar_write(items[n - 1], t, pos + prev.len(), x2),
        ));
        assert(ser_items(items, t, pos, x2, (n - 1) as nat) == Ok::<Seq<u8>, SpecCodecError>(prev));
    } else {
        assert(items.take(0) =~= Seq::<SpecValue>::empty());
    }
}

/// A well-typed value is written without error and read back whole from
/// wherever its bytes stand.
pub proof fn lemma_value_round_trip(v: SpecValue, t: FieldTypeInfo, buf: Seq<u8>, pos: nat, x2: bool)
    requires
        wt_value(v, t),
    ensures
        ser_value(v, t, pos, x2) is Ok,
        ser_value(v, t, pos, x2) matches Ok(b) ==> (contains_at(buf, pos, b) ==> de_value(t, buf, pos, true, x2)
            == Some((v, pos + b.len()))),
    decreases v, 0nat,
{
    lemma_auto_spec_u32_to_from_le_bytes();
    if is_scalar_type(t) {
        if ser_value(v, t, pos, x2) matches Ok(b) && contains_at(buf, pos, b) {
            lemma_scalar_round_trip(v, t, buf, pos, x2);
        }
    } else {
        match t {
            FieldTypeInfo::String { .. } => {
                let c = v->Str_0;
                let enc = encode_utf8(c);
                let n = (enc.len() + 1) as u32;
                let hdr = aligned(pos, 4, u32_le(n));
                let b = string_write(c, pos);
                assert(b == hdr + (enc + seq![0u8]));
                if contains_at(buf, pos, b) {
                    lemma_contains_split(buf, pos, hdr, enc + seq![0u8]);
                    lemma_read_aligned(buf, pos, 4, u32_le(n));
                    encode_utf8_valid_utf8(c);
                    encode_utf8_decode_utf8(c);
                    let p1 = pos + hdr.len();
                    let content = buf.subrange(p1 as int, p1 + n);
                    assert(content == enc + seq![0u8]);
                    assert(content.take(n - 1) =~= enc);
                    assert(string_read(buf, pos, true) == Some((c, pos + b.len())));
                }
            },
            FieldTypeInfo::Bytes { .. } => {
                let bs = v->Bytes_0;
                let hdr = aligned(pos, 4, u32_le(bs.len() as u32));
                if contains_at(buf, pos, octets_write(bs, pos)) {
                    lemma_contains_split(buf, pos, hdr, bs);
                    lemma_read_aligned(buf, pos, 4, u32_le(bs.len() as u32));
                    assert(octets_read(buf, pos, true) == Some((bs, pos + octets_write(bs, pos).len())));
                }
            },
            FieldTypeInfo::Sequence { element_type, .. } => {
                let et = *element_type;
                if et is UInt8 {
                    let bs = v->Bytes_0;
                    let hdr = aligned(pos, 4, u32_le(bs.len() as u32));
                    if contains_at(buf, pos, octets_write(bs, pos)) {
                        lemma_contains_split(buf, pos, hdr, bs);
                        lemma_read_aligned(buf, pos, 4, u32_le(bs.len() as u32));
                        assert(octets_read(buf, pos, true) == Some((bs, pos + octets_write(bs, pos).len())));
                    }
                } else {
                    let items = v->Sequence_0;
                    let hdr = aligned(pos, 4, u32_le(items.len() as u32));
                    let p1 = pos + hdr.len();
                    if is_bulk_type(et) {
                        assert forall|i: int| 0 <= i < items.len() implies scalar_matches(#[trigger] items[i], et) by {
                            assert(wt_value(items[i], et));
                        }
                        lemma_keep_all(items, et);
                        lemma_scalars_as_items(items, et, p1, x2, items.len());
                        assert(items.take(items.len() as int) =~= items);
                        assert(bulk_write(items, et, pos, x2) == Ok::<Seq<u8>, SpecCodecError>(
                            hdr + scalars_write(items, et, p1, x2),
                        ));
                    }
                    lemma_items_round_trip(items, et, buf, p1, x2, items.len());
                    let body = ser_items(items, et, p1, x2, items.len())->Ok_0;
                    assert(ser_value(v, t, pos, x2) == Ok::<Seq<u8>, SpecCodecError>(hdr + body));
                    if contains_at(buf, pos, hdr + body) {
                        lemma_contains_split(buf, pos, hdr, body);
                        lemma_read_aligned(buf, pos, 4, u32_le(items.len() as u32));
                        assert(items.take(items.len() as int) =~= items);
                    }
                }
            },
            FieldTypeInfo::Array { element_type, length } => {
                let items = v->Array_0;
                lemma_items_round_trip(items, *element_type, buf, pos, x2, items.len());
                assert(items.take(items.len() as int) =~= items);
            },
            FieldTypeInfo::Struct { descriptor } => {
                let vals = v->Struct_0;
                lemma_fields_round_trip(vals, descriptor.fields@, buf, pos, x2, vals.len());
                assert(vals.take(vals.len() as int) =~= vals);
            },
            _ => {},
        }
    }
}

/// The first `n` well-typed items are written without error and read back.
pub proof fn lemma_items_round_trip(items: Seq<SpecValue>, t: FieldTypeInfo, buf: Seq<u8>, pos: nat, x2: bool, n: nat)
    requires
        n <= items.len(),
        forall|i: int| 0 <= i < items.len() ==> wt_value(#[trigger] items[i], t),
    ensures
        ser_items(items, t, pos, x2, n) is Ok,
        ser_items(items, t, pos, x2, n) matches Ok(b) ==> (contains_at(buf, pos, b) ==> de_items(
            t,
            n,
            buf,
            pos,
            true,
            x2,
        ) == Some((items.take(n as int), pos + b.len()))),
    decreases items, n,
{
    if n == 0 {
        assert(items.take(0) =~= Seq::<SpecValue>::empty());
    } else {
        lemma_items_round_trip(items, t, buf, pos, x2, (n - 1) as nat);
        let prefix = ser_items(items, t, pos, x2, (n - 1) as nat)->Ok_0;
        let x = items[n - 1];
        assert(wt_value(x, t));
        lemma_value_round_trip(x, t, buf, pos + prefix.len(), x2);
        let bv = ser_value(x, t, pos + prefix.len(), x2)->Ok_0;
        if contains_at(buf, pos, prefix + bv) {
            lemma_contains_split(buf, pos, prefix, bv);
            assert(items.take(n - 1).push(x) =~= items.take(n as int));
        }
    }
}

/// The first `n` fields of a well-typed sample are written without error and
/// read back.
pub proof fn lemma_fields_round_trip(
    vals: Seq<Option<SpecValue>>,
    fields: Seq<FieldDescriptor>,
    buf: Seq<u8>,
    pos: nat,
    x2: bool,
    n: nat,
)
    requires
        n <= vals.len(),
        wt_sample(vals, fields),
    ensures
        ser_fields(vals, fields, pos, x2, n) is Ok,
        ser_fields(vals, fields, pos, x2, n) matches Ok(b) ==> (contains_at(buf, pos, b) ==> de_fields(
            fields,
            n,
            buf,
            pos,
            true,
            x2,
        ) == Some((vals.take(n as int), pos + b.len()))),
    decreases vals, n,
{
    if n == 0 {
        assert(vals.take(0) =~= Seq::<Option<SpecValue>>::empty());
    } else {
        lemma_fields_round_trip(vals, fields, buf, pos, x2, (n - 1) as nat);
        let prefix = ser_fields(vals, fields, pos, x2, (n - 1) as nat)->Ok_0;
        assert(vals[n - 1] matches Some(x) && wt_value(x, fields[n - 1].field_type));
        let x = vals[n - 1]->0;
        lemma_value_round_trip(x, fields[n - 1].field_type, buf, pos + prefix.len(), x2);
        let bv = ser_value(x, fields[n - 1].field_type, pos + prefix.len(), x2)->Ok_0;
        if contains_at(buf, pos, prefix + bv) {
            lemma_contains_split(buf, pos, prefix, bv);
            assert(vals.take(n - 1).push(Some(x)) =~= vals.take(n as int));
        }
    }
}

/// A buffer holds itself at its start.
proof fn lemma_contains_self(b: Seq<u8>)
    ensures
        contains_at(b, 0, b),
{
    assert(b.subrange(0, b.len() as int) =~= b);
}

/// Round trip of XCDR1: a sample whose every field holds a well-typed value
/// serializes without error, and deserializing the bytes gives the sample back.
pub proof fn law_cdr_round_trip(vals: Seq<Option<SpecValue>>, fields: Seq<FieldDescriptor>)
    requires
        wt_sample(vals, fields),
    ensures
        cdr_encoding(vals, fields) matches Ok(bytes) && cdr_decoding(bytes, fields) == Ok::<
            Seq<Option<SpecValue>>,
            crate::encoding::SpecDecodeError,
        >(vals),
{
    let n = fields.len();
    lemma_fields_round_trip(vals, fields, Seq::empty(), 0, false, n);
    let body = ser_fields(vals, fields, 0, false, n)->Ok_0;
    lemma_contains_self(body);
    lemma_fields_round_trip(vals, fields, body, 0, false, n);
    let bytes = cdr_header() + body;
    assert(bytes.skip(4) =~= body);
    assert(header_le(bytes));
    assert(vals.take(n as int) =~= vals);
}

/// Round trip of XCDR2 for Final and Appendable types: a sample whose every
/// field holds a well-typed value reads back from its encoding; the encoding
/// fails only for an Appendable body too long for its `u32` DHEADER.
pub proof fn law_xcdr2_round_trip(vals: Seq<Option<SpecValue>>, fields: Seq<FieldDescriptor>, ext: ExtensibilityKind)
    requires
        wt_sample(vals, fields),
        ext != ExtensibilityKind::Mutable,
    ensures
        xcdr2_encoding(vals, fields, ext) matches Ok(bytes) ==> xcdr2_decoding(bytes, fields, ext) == Ok::<
            Seq<Option<SpecValue>>,
            crate::encoding::SpecDecodeError,
        >(vals),
        xcdr2_encoding(vals, fields, ext) is Err ==> ext == ExtensibilityKind::Appendable
            && xcdr2_encoding(vals, fields, ext) == Err::<Seq<u8>, SpecCodecError>(SpecCodecError::TooLarge),
{
    let n = fields.len();
    assert(vals.take(n as int) =~= vals);
    if ext == ExtensibilityKind::Final {
        lemma_fields_round_trip(vals, fields, Seq::empty(), 0, true, n);
        let body = ser_fields(vals, fields, 0, true, n)->Ok_0;
        lemma_contains_self(body);
        lemma_fields_round_trip(vals, fields, body, 0, true, n);
        let bytes = xcdr2_header(ext) + body;
        assert(bytes.skip(4) =~= body);
        assert(header_le(bytes));
    } else {
        lemma_fields_round_trip(vals, fields, Seq::empty(), 4, true, n);
        let inner = ser_fields(vals, fields, 4, true, n)->Ok_0;
        if inner.len() <= u32::MAX {
            lemma_auto_spec_u32_to_from_le_bytes();
            let hdr = u32_le(inner.len() as u32);
            let body = hdr + inner;
            lemma_contains_self(body);
            lemma_contains_split(body, 0, hdr, inner);
            lemma_fields_round_trip(vals, fields, body, 4, true, n);
            let bytes = xcdr2_header(ext) + body;
            assert(bytes.skip(4) =~= body);
            assert(header_le(bytes));
            assert(aligned(0, 4, hdr) =~= hdr);
            lemma_read_aligned(body, 0, 4, hdr);
        }
    }
}

/// Every field holds a well-typed value, except optional fields, which may
/// hold none.
pub open spec fn wt_members(vals: Seq<Option<SpecValue>>, fields: Seq<FieldDescriptor>) -> bool {
    &&& vals.len() == fields.len()
    &&& forall|i: int|
        0 <= i < vals.len() ==> (#[trigger] vals[i] matches Some(x) && wt_value(x, fields[i].field_type)) || (
        vals[i] is None && fields[i].is_optional)
}

/// Member ids fit the 16 bits of a member header, differ from one another,
/// and none is the sentinel.
pub open spec fn member_ids_ok(fields: Seq<FieldDescriptor>) -> bool {
    &&& forall|i: int| 0 <= i < fields.len() ==> #[trigger] fields[i].member_id < 0x10000
    &&& forall|i: int| 0 <= i < fields.len() ==> #[trigger] fields[i].member_id != SENTINEL_MEMBER_ID
    &&& forall|i: int, j: int|
        0 <= i < fields.len() && 0 <= j < fields.len() && i != j ==> #[trigger] fields[i].member_id
            != #[trigger] fields[j].member_id
}

/// The values of the first `n` fields, the rest absent.
pub open spec fn first_values(vals: Seq<Option<SpecValue>>, n: nat) -> Seq<Option<SpecValue>> {
    Seq::new(vals.len(), |i: int| if i < n { vals[i] } else { None })
}

/// The member header gives back the id and the low 16 bits of the length.
pub proof fn lemma_emheader_fields(member_id: u32, len: nat)
    requires
        member_id < 0x10000,
    ensures
        emheader(member_id, len) >> 16u32 == member_id,
        (emheader(member_id, len) & 0xFFFFu32) as nat == len % 0x10000,
{
    let x = (len % 0x10000) as u32;
    assert(x < 0x10000);
    assert(((member_id << 16u32) | x) >> 16u32 == member_id) by (bit_vector)
        requires
            member_id < 0x10000u32,
            x < 0x10000u32,
    ;
    assert(((member_id << 16u32) | x) & 0xFFFFu32 == x) by (bit_vector)
        requires
            member_id < 0x10000u32,
            x < 0x10000u32,
    ;
}

/// Writing more members extends what fewer members wrote.
pub proof fn lemma_ser_members_prefix(
    vals: Seq<Option<SpecValue>>,
    fields: Seq<FieldDescriptor>,
    pos: nat,
    k: nat,
    m: nat,
)
    requires
        k <= m <= fields.len(),
        ser_members(vals, fields, pos, m) is Ok,
    ensures
        ser_members(vals, fields, pos, k) is Ok,
        ser_members(vals, fields, pos, m)->Ok_0.take(ser_members(vals, fields, pos, k)->Ok_0.len() as int)
            == ser_members(vals, fields, pos, k)->Ok_0,
        ser_members(vals, fields, pos, k)->Ok_0.len() <= ser_members(vals, fields, pos, m)->Ok_0.len(),
    decreases m - k,
{
    if k < m {
        lemma_ser_members_prefix(vals, fields, pos, k, (m - 1) as nat);
        let a = ser_members(vals, fields, pos, k)->Ok_0;
        let b = ser_members(vals, fields, pos, (m - 1) as nat)->Ok_0;
        let c = ser_members(vals, fields, pos, m)->Ok_0;
        assert(c.take(b.len() as int) =~= b);
        assert(c.take(a.len() as int) =~= b.take(a.len() as int));
    } else {
        let a = ser_members(vals, fields, pos, k)->Ok_0;
        assert(a.take(a.len() as int) =~= a);
    }
}

/// Reading the members of a mutable struct walks the written members one by
/// one: after the first `n` members it stands where they end, holding their
/// values.
#[verifier::spinoff_prover]
#[verifier::rlimit(30)]
pub proof fn lemma_members_progress(
    vals: Seq<Option<SpecValue>>,
    fields: Seq<FieldDescriptor>,
    buf: Seq<u8>,
    end: nat,
    n: nat,
)
    requires
        wt_members(vals, fields),
        member_ids_ok(fields),
        n <= fields.len(),
        ser_members(vals, fields, 4, fields.len()) matches Ok(full) && contains_at(buf, 4, full) && end == 4
            + full.len(),
    ensures
        ser_members(vals, fields, 4, n) matches Ok(prefix) && de_members(
            fields,
            buf,
            4,
            end,
            true,
            no_values(fields.len()),
        ) == de_members(fields, buf, 4 + prefix.len(), end, true, first_values(vals, n)),
    decreases n,
{
    let full = ser_members(vals, fields, 4, fields.len())->Ok_0;
    lemma_ser_members_prefix(vals, fields, 4, n, fields.len());
    if n == 0 {
        assert(first_values(vals, 0) =~= no_values(fields.len()));
    } else {
        let k = (n - 1) as nat;
        lemma_members_progress(vals, fields, buf, end, k);
        lemma_ser_members_prefix(vals, fields, 4, k, fields.len());
        let prefix = ser_members(vals, fields, 4, k)->Ok_0;
        let next = ser_members(vals, fields, 4, n)->Ok_0;
        let p = 4 + prefix.len();
        let f = fields[k as int];
        if let Some(x) = vals[k as int] {
            assert(wt_value(x, f.field_type));
            let start = p + pad_len(p, 4) + 4;
            lemma_value_round_trip(x, f.field_type, Seq::empty(), start, true);
            let b = ser_value(x, f.field_type, start, true)->Ok_0;
            let h = emheader(f.member_id, b.len());
            let hdr = aligned(p, 4, u32_le(h));
            assert(next == prefix + (hdr + b));
            // the member's bytes stand in the buffer after the prefix
            assert(full.take(next.len() as int) == next);
            assert(full == next + full.skip(next.len() as int));
            assert(full =~= prefix + (hdr + b) + full.skip(next.len() as int));
            lemma_contains_split(buf, 4, prefix + (hdr + b), full.skip(next.len() as int));
            lemma_contains_split(buf, 4, prefix, hdr + b);
            lemma_contains_split(buf, p, hdr, b);
            lemma_read_aligned(buf, p, 4, u32_le(h));
            lemma_auto_spec_u32_to_from_le_bytes();
            lemma_emheader_fields(f.member_id, b.len());
            lemma_member_index_is(fields, f.member_id, k as int);
            lemma_value_round_trip(x, f.field_type, buf, start, true);
            assert(de_value(f.field_type, buf, start, true, true) == Some((x, start + b.len())));
            reveal(member_step);
            assert(member_step(fields, buf, p, true) == MemberStep::Assign(k as int, x, start + b.len()));
            assert(first_values(vals, k).update(k as int, Some(x)) =~= first_values(vals, n));
            assert(p < end);
        } else {
            assert(f.is_optional);
            assert(next == prefix);
            assert(first_values(vals, k) =~= first_values(vals, n));
        }
    }
}

/// Round trip of XCDR2 for Mutable types: a sample whose fields hold
/// well-typed values (optional ones may hold none), of a type whose member
/// ids fit 16 bits, differ and avoid the sentinel, reads back from its
/// encoding; the encoding fails only for a body too long for its DHEADER.
pub proof fn law_mutable_round_trip(vals: Seq<Option<SpecValue>>, fields: Seq<FieldDescriptor>)
    requires
        wt_members(vals, fields),
        member_ids_ok(fields),
    ensures
        xcdr2_encoding(vals, fields, ExtensibilityKind::Mutable) matches Ok(bytes) ==> xcdr2_decoding(
            bytes,
            fields,
            ExtensibilityKind::Mutable,
        ) == Ok::<Seq<Option<SpecValue>>, crate::encoding::SpecDecodeError>(vals),
        xcdr2_encoding(vals, fields, ExtensibilityKind::Mutable) is Err ==> xcdr2_encoding(
            vals,
            fields,
            ExtensibilityKind::Mutable,
        ) == Err::<Seq<u8>, SpecCodecError>(SpecCodecError::TooLarge),
{
    let n = fields.len();
    lemma_members_ok(vals, fields, 4, n);
    let inner = ser_members(vals, fields, 4, n)->Ok_0;
    if inner.len() <= u32::MAX {
        lemma_auto_spec_u32_to_from_le_bytes();
        let hdr = u32_le(inner.len() as u32);
        let body = hdr + inner;
        lemma_contains_self(body);
        lemma_contains_split(body, 0, hdr, inner);
        assert(aligned(0, 4, hdr) =~= hdr);
        lemma_read_aligned(body, 0, 4, hdr);
        let end = 4 + inner.len();
        lemma_members_progress(vals, fields, body, end, n);
        assert(first_values(vals, n) =~= vals);
        assert(de_members(fields, body, end, end, true, vals) == Some((vals, end)));
        if first_missing(fields, vals) is Some {
            let w = choose|i: int| 0 <= i < fields.len() && !fields[i].is_optional && #[trigger] vals[i] is None;
            assert(vals[w] matches Some(x) && wt_value(x, fields[w].field_type));
        }
        let bytes = xcdr2_header(ExtensibilityKind::Mutable) + body;
        assert(bytes.skip(4) =~= body);
        assert(header_le(bytes));
    }
}

/// Writing the members of a sample with every required value present succeeds.
pub proof fn lemma_members_ok(vals: Seq<Option<SpecValue>>, fields: Seq<FieldDescriptor>, pos: nat, n: nat)
    requires
        wt_members(vals, fields),
        n <= fields.len(),
    ensures
        ser_members(vals, fields, pos, n) is Ok,
    decreases n,
{
    if n > 0 {
        lemma_members_ok(vals, fields, pos, (n - 1) as nat);
        let prefix = ser_members(vals, fields, pos, (n - 1) as nat)->Ok_0;
        if let Some(x) = vals[n - 1] {
            assert(wt_value(x, fields[n - 1].field_type));
            let q = pos + prefix.len();
            lemma_value_round_trip(x, fields[n - 1].field_type, Seq::empty(), q + pad_len(q, 4) + 4, true);
        } else {
            assert(fields[n - 1].is_optional);
        }
    }
}

/// A type built field by field, whose member ids are therefore the field
/// positions, round-trips as a mutable type while it has fewer fields than
/// the reserved sentinel id: decoding an encoding gives back the values, and
/// encoding fails only for a member too large for its header.
pub proof fn law_mutable_round_trip_in_declaration_order(vals: Seq<Option<SpecValue>>, d: Int2DdsTypeDescriptor)
    requires
        wt_members(vals, d.fields@),
        ids_follow_order(d),
        d.fields@.len() <= SENTINEL_MEMBER_ID,
    ensures
        xcdr2_encoding(vals, d.fields@, ExtensibilityKind::Mutable) matches Ok(bytes) ==> xcdr2_decoding(
            bytes,
            d.fields@,
            ExtensibilityKind::Mutable,
        ) == Ok::<Seq<Option<SpecValue>>, crate::encoding::SpecDecodeError>(vals),
        xcdr2_encoding(vals, d.fields@, ExtensibilityKind::Mutable) is Err ==> xcdr2_encoding(
            vals,
            d.fields@,
            ExtensibilityKind::Mutable,
        ) == Err::<Seq<u8>, SpecCodecError>(SpecCodecError::TooLarge),
{
    assert(member_ids_ok(d.fields@));
    law_mutable_round_trip(vals, d.fields@);
}

/// What `serialize` writes, `deserialize` without a format reads back: the
/// encapsulation header of an XCDR1 encoding carries an id outside 6 to 11
/// and that of an XCDR2 encoding one inside, so format detection picks the
/// decoding that was written, and it gives the sample back. This holds for
/// samples whose fields all hold well-typed values, and for a Mutable type
/// written as XCDR2 also with absent optional fields, when its member ids fit
/// the member headers.
pub proof fn law_detected_round_trip(
    vals: Seq<Option<SpecValue>>,
    fields: Seq<FieldDescriptor>,
    ext: ExtensibilityKind,
    x2: bool,
)
    requires
        x2 && ext == ExtensibilityKind::Mutable ==> wt_members(vals, fields) && member_ids_ok(fields),
        !(x2 && ext == ExtensibilityKind::Mutable) ==> wt_sample(vals, fields),
    ensures
        (if x2 {
            xcdr2_encoding(vals, fields, ext)
        } else {
            cdr_encoding(vals, fields)
        }) matches Ok(bytes) ==> {
            &&& bytes.len() >= 2
            &&& (6 <= bytes[0] as int * 256 + bytes[1] as int <= 11 <==> x2)
            &&& x2 ==> xcdr2_decoding(bytes, fields, ext) == Ok::<
                Seq<Option<SpecValue>>,
                crate::encoding::SpecDecodeError,
            >(vals)
            &&& !x2 ==> cdr_decoding(bytes, fields) == Ok::<Seq<Option<SpecValue>>, crate::encoding::SpecDecodeError>(
                vals,
            )
        },
{
    lemma_encoding_headers(vals, fields, ext);
    if x2 {
        if ext == ExtensibilityKind::Mutable {
            law_mutable_round_trip(vals, fields);
        } else {
            law_xcdr2_round_trip(vals, fields, ext);
        }
    } else {
        law_cdr_round_trip(vals, fields);
    }
}

/// The first two bytes of an encoding: XCDR1 writes id 1, XCDR2 the id of
/// the extensibility (7, 9 or 11).
proof fn lemma_encoding_headers(vals: Seq<Option<SpecValue>>, fields: Seq<FieldDescriptor>, ext: ExtensibilityKind)
    ensures
        cdr_encoding(vals, fields) matches Ok(bytes) ==> bytes.len() >= 4 && bytes[0] == 0u8 && bytes[1] == 1u8,
        xcdr2_encoding(vals, fields, ext) matches Ok(bytes) ==> bytes.len() >= 4 && bytes[0] == 0u8 && bytes[1]
            == crate::encoding::xcdr2_id(ext),
        7 <= crate::encoding::xcdr2_id(ext) <= 11,
{
    if let Ok(body) = crate::encoding::xcdr2_body(vals, fields, ext) {
        let bytes = xcdr2_header(ext) + body;
        assert(bytes[0] == 0u8 && bytes[1] == crate::encoding::xcdr2_id(ext));
    }
    if let Ok(body) = ser_fields(vals, fields, 0, false, fields.len()) {
        let bytes = cdr_header() + body;
        assert(bytes[0] == 0u8 && bytes[1] == 1u8);
    }
}

} // verus!
