//! Whole-sample encodings: the encapsulation header followed by the fields of
//! the type, as XCDR1 (classic CDR) or XCDR2 with the framing that the type's
//! extensibility calls for, and how such bytes are read back.
//!
//! XCDR2 framing: a Final type writes its fields as they are; an Appendable
//! type prefixes them with a `u32` DHEADER holding their byte length; a
//! Mutable type does the same, and every present member is preceded by a
//! 4-byte member header `(member_id << 16) | (length & 0xFFFF)`. Optional
//! members without a value are left out.

use vstd::prelude::*;

use crate::cdr::{aligned, pad_len, read_at, u32_from, u32_le};
use crate::codec_spec::{de_fields, de_value, ser_fields, ser_value, SpecCodecError};
use crate::data::SpecValue;
use crate::type_descriptor::{ExtensibilityKind, FieldDescriptor};

verus! {

/// Member id that ends the member list of a mutable struct early.
pub const SENTINEL_MEMBER_ID: u32 = 0x3F02;

/// Encapsulation header of little-endian XCDR1.
pub open spec fn cdr_header() -> Seq<u8> {
    seq![0u8, 1u8, 0u8, 0u8]
}

/// Second header byte of little-endian XCDR2 for each extensibility.
pub open spec fn xcdr2_id(ext: ExtensibilityKind) -> u8 {
    match ext {
        ExtensibilityKind::Final => 7u8,
        ExtensibilityKind::Appendable => 9u8,
        ExtensibilityKind::Mutable => 11u8,
    }
}

/// Encapsulation header of little-endian XCDR2.
pub open spec fn xcdr2_header(ext: ExtensibilityKind) -> Seq<u8> {
    seq![0u8, xcdr2_id(ext), 0u8, 0u8]
}

/// The member header of a member with the given id and encoded length.
pub open spec fn emheader(member_id: u32, len: nat) -> u32 {
    (member_id << 16u32) | ((len % 0x10000) as u32)
}

/// One member of a mutable struct written at `pos`: its header, aligned to
/// 4, then its value.
pub open spec fn ser_member(v: SpecValue, f: FieldDescriptor, pos: nat) -> Result<Seq<u8>, SpecCodecError> {
    let start = pos + pad_len(pos, 4) + 4;
    match ser_value(v, f.field_type, start, true) {
        Ok(b) => Ok(aligned(pos, 4, u32_le(emheader(f.member_id, b.len()))) + b),
        Err(e) => Err(e),
    }
}

/// The first `n` members of a mutable struct written from `pos`: present
/// members are written, absent optional ones are skipped, and an absent
/// required one is an error naming it.
pub open spec fn ser_members(
    vals: Seq<Option<SpecValue>>,
    fields: Seq<FieldDescriptor>,
    pos: nat,
    n: nat,
) -> Result<Seq<u8>, SpecCodecError>
    decreases n,
{
    if n == 0 || n > fields.len() {
        Ok(Seq::empty())
    } else {
        match ser_members(vals, fields, pos, (n - 1) as nat) {
            Ok(prefix) => {
                let f = fields[n - 1];
                if n - 1 < vals.len() && vals[n - 1] is Some {
                    match ser_member(vals[n - 1]->0, f, pos + prefix.len()) {
                        Ok(b) => Ok(prefix + b),
                        Err(e) => Err(e),
                    }
                } else if f.is_optional {
                    Ok(prefix)
                } else {
                    Err(SpecCodecError::Missing(f.name@))
                }
            },
            Err(e) => Err(e),
        }
    }
}

/// A body prefixed with its length as a `u32` DHEADER.
pub open spec fn delimited(r: Result<Seq<u8>, SpecCodecError>) -> Result<Seq<u8>, SpecCodecError> {
    match r {
        Ok(b) => if b.len() > u32::MAX {
            Err(SpecCodecError::TooLarge)
        } else {
            Ok(u32_le(b.len() as u32) + b)
        },
        Err(e) => Err(e),
    }
}

/// The XCDR1 encoding of a sample.
pub open spec fn cdr_encoding(vals: Seq<Option<SpecValue>>, fields: Seq<FieldDescriptor>) -> Result<
    Seq<u8>,
    SpecCodecError,
> {
    match ser_fields(vals, fields, 0, false, fields.len()) {
        Ok(b) => Ok(cdr_header() + b),
        Err(e) => Err(e),
    }
}

/// The XCDR2 body of a sample, framed for the extensibility.
pub open spec fn xcdr2_body(
    vals: Seq<Option<SpecValue>>,
    fields: Seq<FieldDescriptor>,
    ext: ExtensibilityKind,
) -> Result<Seq<u8>, SpecCodecError> {
    match ext {
        ExtensibilityKind::Final => ser_fields(vals, fields, 0, true, fields.len()),
        ExtensibilityKind::Appendable => delimited(ser_fields(vals, fields, 4, true, fields.len())),
        ExtensibilityKind::Mutable => delimited(ser_members(vals, fields, 4, fields.len())),
    }
}

/// The XCDR2 encoding of a sample.
pub open spec fn xcdr2_encoding(
    vals: Seq<Option<SpecValue>>,
    fields: Seq<FieldDescriptor>,
    ext: ExtensibilityKind,
) -> Result<Seq<u8>, SpecCodecError> {
    match xcdr2_body(vals, fields, ext) {
        Ok(b) => Ok(xcdr2_header(ext) + b),
        Err(e) => Err(e),
    }
}

/// The key of a sample written as XCDR1: the key fields in order, absent
/// ones left out.
pub open spec fn ser_key_fields(
    vals: Seq<Option<SpecValue>>,
    fields: Seq<FieldDescriptor>,
    pos: nat,
    n: nat,
) -> Result<Seq<u8>, SpecCodecError>
    decreases n,
{
    if n == 0 || n > fields.len() {
        Ok(Seq::empty())
    } else {
        match ser_key_fields(vals, fields, pos, (n - 1) as nat) {
            Ok(prefix) => if fields[n - 1].is_key && n - 1 < vals.len() && vals[n - 1] is Some {
                match ser_value(vals[n - 1]->0, fields[n - 1].field_type, pos + prefix.len(), false) {
                    Ok(b) => Ok(prefix + b),
                    Err(e) => Err(e),
                }
            } else {
                Ok(prefix)
            },
            Err(e) => Err(e),
        }
    }
}

/// The serialized key of a sample.
pub open spec fn key_encoding(vals: Seq<Option<SpecValue>>, fields: Seq<FieldDescriptor>) -> Result<
    Seq<u8>,
    SpecCodecError,
> {
    match ser_key_fields(vals, fields, 0, fields.len()) {
        Ok(b) => Ok(cdr_header() + b),
        Err(e) => Err(e),
    }
}

/// Why bytes cannot be read as a sample.
pub enum SpecDecodeError {
    /// Fewer than four bytes: no encapsulation header.
    TooShort,
    /// The bytes end early or do not hold a value of the expected type.
    Malformed,
    /// A required member of a mutable struct is absent.
    Missing(Seq<char>),
    /// More was read than the DHEADER declares.
    Overrun,
}

/// Whether the encapsulation header announces little-endian data.
pub open spec fn header_le(data: Seq<u8>) -> bool {
    data[1] % 2 == 1
}

/// A sample read from XCDR1 bytes.
pub open spec fn cdr_decoding(data: Seq<u8>, fields: Seq<FieldDescriptor>) -> Result<
    Seq<Option<SpecValue>>,
    SpecDecodeError,
> {
    if data.len() < 4 {
        Err(SpecDecodeError::TooShort)
    } else {
        match de_fields(fields, fields.len(), data.skip(4), 0, header_le(data), false) {
            Some((vals, _)) => Ok(vals),
            None => Err(SpecDecodeError::Malformed),
        }
    }
}

/// Index of the first field with the given member id.
pub open spec fn member_index(fields: Seq<FieldDescriptor>, id: u32) -> Option<int> {
    if exists|i: int| 0 <= i < fields.len() && #[trigger] fields[i].member_id == id {
        Some(choose|i: int|
            0 <= i < fields.len() && fields[i].member_id == id && forall|j: int|
                0 <= j < i ==> #[trigger] fields[j].member_id != id)
    } else {
        None
    }
}

/// What reading one member header and its member gives.
pub enum MemberStep {
    /// The bytes end early or do not hold the member.
    Fail,
    /// The sentinel: the member list ends at the position.
    Stop(nat),
    /// An unknown member, skipped up to the position.
    Skip(nat),
    /// Field `i` receives the value; reading goes on at the position.
    Assign(int, SpecValue, nat),
}

/// Read one member at `pos`: its header, aligned to 4, gives the member id
/// (high 16 bits) and length (low 16 bits). A known member's value is read
/// and the rest of its declared length skipped; an unknown member is
/// skipped whole; the sentinel id stops the list.
#[verifier::opaque]
pub open spec fn member_step(fields: Seq<FieldDescriptor>, buf: Seq<u8>, pos: nat, le: bool) -> MemberStep {
    match read_at(buf, pos, 4, 4) {
        None => MemberStep::Fail,
        Some((hb, p1)) => {
            let h = u32_from(hb, le);
            let id = h >> 16u32;
            let len = (h & 0xFFFFu32) as nat;
            if id == SENTINEL_MEMBER_ID {
                MemberStep::Stop(p1)
            } else {
                match member_index(fields, id) {
                    Some(i) => match de_value(fields[i].field_type, buf, p1, le, true) {
                        Some((v, p2)) => {
                            let p3 = if p2 < p1 + len {
                                p1 + len
                            } else {
                                p2
                            };
                            if p3 > buf.len() {
                                MemberStep::Fail
                            } else {
                                MemberStep::Assign(i, v, p3)
                            }
                        },
                        None => MemberStep::Fail,
                    },
                    None => if p1 + len > buf.len() {
                        MemberStep::Fail
                    } else {
                        MemberStep::Skip(p1 + len)
                    },
                }
            }
        },
    }
}

/// No value for any of `n` fields.
pub open spec fn no_values(n: nat) -> Seq<Option<SpecValue>> {
    Seq::new(n, |i: int| None::<SpecValue>)
}

/// Read the members of a mutable struct from `pos` while `pos < end`,
/// filling `vals`. Gives the values and the position reached.
pub open spec fn de_members(
    fields: Seq<FieldDescriptor>,
    buf: Seq<u8>,
    pos: nat,
    end: nat,
    le: bool,
    vals: Seq<Option<SpecValue>>,
) -> Option<(Seq<Option<SpecValue>>, nat)>
    decreases (if pos < end {
        end - pos
    } else {
        0
    }),
{
    if pos >= end {
        Some((vals, pos))
    } else {
        match member_step(fields, buf, pos, le) {
            MemberStep::Fail => None,
            MemberStep::Stop(p) => Some((vals, p)),
            MemberStep::Skip(p) => if p > pos {
                de_members(fields, buf, p, end, le, vals)
            } else {
                None
            },
            MemberStep::Assign(i, v, p) => if p > pos {
                de_members(fields, buf, p, end, le, vals.update(i, Some(v)))
            } else {
                None
            },
        }
    }
}

/// Index of the first required field without a value.
pub open spec fn first_missing(fields: Seq<FieldDescriptor>, vals: Seq<Option<SpecValue>>) -> Option<int> {
    if exists|i: int| 0 <= i < fields.len() && !fields[i].is_optional && #[trigger] vals[i] is None {
        Some(choose|i: int|
            0 <= i < fields.len() && !fields[i].is_optional && vals[i] is None && forall|j: int|
                0 <= j < i ==> fields[j].is_optional || !(#[trigger] vals[j] is None))
    } else {
        None
    }
}

/// The end check of a delimited struct: what was read must lie within the
/// declared size, and the declared end within the data.
pub open spec fn end_check(
    r: Seq<Option<SpecValue>>,
    reached: nat,
    end: nat,
    buf_len: nat,
) -> Result<Seq<Option<SpecValue>>, SpecDecodeError> {
    if reached > end {
        Err(SpecDecodeError::Overrun)
    } else if end > buf_len {
        Err(SpecDecodeError::Malformed)
    } else {
        Ok(r)
    }
}

/// A sample read from XCDR2 bytes of a type with the given extensibility.
pub open spec fn xcdr2_decoding(
    data: Seq<u8>,
    fields: Seq<FieldDescriptor>,
    ext: ExtensibilityKind,
) -> Result<Seq<Option<SpecValue>>, SpecDecodeError> {
    if data.len() < 4 {
        Err(SpecDecodeError::TooShort)
    } else {
        let buf = data.skip(4);
        let le = header_le(data);
        match ext {
            ExtensibilityKind::Final => match de_fields(fields, fields.len(), buf, 0, le, true) {
                Some((vals, _)) => Ok(vals),
                None => Err(SpecDecodeError::Malformed),
            },
            ExtensibilityKind::Appendable => match read_at(buf, 0, 4, 4) {
                None => Err(SpecDecodeError::Malformed),
                Some((sb, start)) => {
                    let end = start + u32_from(sb, le) as nat;
                    match de_fields(fields, fields.len(), buf, start, le, true) {
                        Some((vals, p)) => end_check(vals, p, end, buf.len()),
                        None => Err(SpecDecodeError::Malformed),
                    }
                },
            },
            ExtensibilityKind::Mutable => mutable_decoding(buf, fields, le),
        }
    }
}

/// The members of a mutable struct read from a body: the DHEADER, the
/// members up to the end it declares, the check that every required member
/// was read, and the end check.
pub open spec fn mutable_decoding(buf: Seq<u8>, fields: Seq<FieldDescriptor>, le: bool) -> Result<
    Seq<Option<SpecValue>>,
    SpecDecodeError,
> {
    match read_at(buf, 0, 4, 4) {
        None => Err(SpecDecodeError::Malformed),
        Some((sb, start)) => {
            let end = start + u32_from(sb, le) as nat;
            match de_members(fields, buf, start, end, le, no_values(fields.len())) {
                Some((vals, p)) => match first_missing(fields, vals) {
                    Some(i) => Err(SpecDecodeError::Missing(fields[i].name@)),
                    None => end_check(vals, p, end, buf.len()),
                },
                None => Err(SpecDecodeError::Malformed),
            }
        },
    }
}

/// The least index with the member id is the one `member_index` names.
pub proof fn lemma_member_index_is(fields: Seq<FieldDescriptor>, id: u32, i: int)
    requires
        0 <= i < fields.len(),
        fields[i].member_id == id,
        forall|j: int| 0 <= j < i ==> #[trigger] fields[j].member_id != id,
    ensures
        member_index(fields, id) == Some(i),
{
    let k = choose|k: int|
        0 <= k < fields.len() && fields[k].member_id == id && forall|j: int|
            0 <= j < k ==> #[trigger] fields[j].member_id != id;
    assert(exists|k: int|
        0 <= k < fields.len() && fields[k].member_id == id && forall|j: int|
            0 <= j < k ==> #[trigger] fields[j].member_id != id);
    if k < i {
        assert(fields[k].member_id != id);
    }
    if i < k {
        assert(fields[i].member_id != id);
    }
}

/// The least index of a missing required field is the one `first_missing` names.
pub proof fn lemma_first_missing_is(fields: Seq<FieldDescriptor>, vals: Seq<Option<SpecValue>>, i: int)
    requires
        0 <= i < fields.len(),
        !fields[i].is_optional,
        vals[i] is None,
        forall|j: int| 0 <= j < i ==> fields[j].is_optional || !(#[trigger] vals[j] is None),
    ensures
        first_missing(fields, vals) == Some(i),
{
    let k = choose|k: int|
        0 <= k < fields.len() && !fields[k].is_optional && vals[k] is None && forall|j: int|
            0 <= j < k ==> fields[j].is_optional || !(#[trigger] vals[j] is None);
    assert(exists|k: int|
        0 <= k < fields.len() && !fields[k].is_optional && vals[k] is None && forall|j: int|
            0 <= j < k ==> fields[j].is_optional || !(#[trigger] vals[j] is None));
    if k < i {
        assert(fields[k].is_optional || !(vals[k] is None));
    }
    if i < k {
        assert(fields[i].is_optional || !(vals[i] is None));
    }
}

} // verus!
