//! Code mappings of topic creation: the extensibility code of the raw path
//! and the scalar field codes of field-descriptor topics.

use vstd::prelude::*;

use crate::c_layout::CName;
use crate::error::{Int2DdsRet, INT2DDS_RET_INVALID_ARGUMENT};
use crate::text::owned;
use crate::type_descriptor::ExtensibilityKind;

verus! {

/// The extensibility code the library uses by default: Appendable.
pub fn int2dds_default_extensibility() -> (r: i32)
    ensures
        r == 1,
{
    1
}

/// The extensibility of a raw-path code: `-1` is the library default,
/// `0`/`1`/`2` are Final/Appendable/Mutable, anything else is invalid.
pub open spec fn spec_resolve_extensibility(code: i32) -> Option<ExtensibilityKind> {
    let c = if code == -1 {
        1
    } else {
        code
    };
    if c == 0 {
        Some(ExtensibilityKind::Final)
    } else if c == 1 {
        Some(ExtensibilityKind::Appendable)
    } else if c == 2 {
        Some(ExtensibilityKind::Mutable)
    } else {
        None
    }
}

/// Map the raw-path extensibility code to an extensibility; `None` is an
/// invalid argument.
pub fn resolve_extensibility(code: i32) -> (r: Option<ExtensibilityKind>)
    ensures
        r == spec_resolve_extensibility(code),
{
    let code = if code == -1 {
        int2dds_default_extensibility()
    } else {
        code
    };
    match code {
        0 => Some(ExtensibilityKind::Final),
        1 => Some(ExtensibilityKind::Appendable),
        2 => Some(ExtensibilityKind::Mutable),
        _ => None,
    }
}

/// CDR field types of field-descriptor topics.
#[derive(Debug, Clone, Copy, PartialEq, Eq, Structural)]
pub enum CdrFieldType {
    String,
    Int32,
    UInt32,
    Int16,
    UInt16,
    Int64,
    UInt64,
    Int8,
    UInt8,
    Bool,
}

/// The XTypes type identifiers of those field types.
#[derive(Debug, Clone, Copy, PartialEq, Eq, Structural)]
pub enum ScalarTypeIdentifier {
    String8,
    Int32,
    Uint32,
    Int16,
    Uint16,
    Int64,
    Uint64,
    Int8,
    Uint8,
    Boolean,
}

/// The field type and type identifier of a field-descriptor code.
pub open spec fn spec_field_descriptor_type(code: u32) -> Option<(CdrFieldType, ScalarTypeIdentifier)> {
    if code == 0 {
        Some((CdrFieldType::String, ScalarTypeIdentifier::String8))
    } else if code == 1 {
        Some((CdrFieldType::Int32, ScalarTypeIdentifier::Int32))
    } else if code == 2 {
        Some((CdrFieldType::UInt32, ScalarTypeIdentifier::Uint32))
    } else if code == 3 {
        Some((CdrFieldType::Int16, ScalarTypeIdentifier::Int16))
    } else if code == 4 {
        Some((CdrFieldType::UInt16, ScalarTypeIdentifier::Uint16))
    } else if code == 5 {
        Some((CdrFieldType::Int64, ScalarTypeIdentifier::Int64))
    } else if code == 6 {
        Some((CdrFieldType::UInt64, ScalarTypeIdentifier::Uint64))
    } else if code == 7 {
        Some((CdrFieldType::Int8, ScalarTypeIdentifier::Int8))
    } else if code == 8 {
        Some((CdrFieldType::UInt8, ScalarTypeIdentifier::Uint8))
    } else if code == 9 {
        Some((CdrFieldType::Bool, ScalarTypeIdentifier::Boolean))
    } else {
        None
    }
}

/// Map a field-descriptor code (scalar-only, its own numbering) to its CDR
/// field type and type identifier; `None` for unsupported codes.
pub fn field_descriptor_type(code: u32) -> (r: Option<(CdrFieldType, ScalarTypeIdentifier)>)
    ensures
        r == spec_field_descriptor_type(code),
{
    match code {
        0 => Some((CdrFieldType::String, ScalarTypeIdentifier::String8)),
        1 => Some((CdrFieldType::Int32, ScalarTypeIdentifier::Int32)),
        2 => Some((CdrFieldType::UInt32, ScalarTypeIdentifier::Uint32)),
        3 => Some((CdrFieldType::Int16, ScalarTypeIdentifier::Int16)),
        4 => Some((CdrFieldType::UInt16, ScalarTypeIdentifier::Uint16)),
        5 => Some((CdrFieldType::Int64, ScalarTypeIdentifier::Int64)),
        6 => Some((CdrFieldType::UInt64, ScalarTypeIdentifier::Uint64)),
        7 => Some((CdrFieldType::Int8, ScalarTypeIdentifier::Int8)),
        8 => Some((CdrFieldType::UInt8, ScalarTypeIdentifier::Uint8)),
        9 => Some((CdrFieldType::Bool, ScalarTypeIdentifier::Boolean)),
        _ => None,
    }
}

/// For every supported code the CDR field type a field is written with and
/// the type identifier it is announced with name the same scalar type (a
/// 64-bit signed field is both written and announced as 64-bit signed);
/// distinct codes give distinct types, and exactly the codes 0 to 9 are
/// supported.
pub proof fn law_field_codes_agree(code: u32, other: u32)
    ensures
        spec_field_descriptor_type(code) is Some <==> code <= 9,
        spec_field_descriptor_type(code) matches Some((c, x)) ==> {
            &&& (c is String <==> x is String8)
            &&& (c is Int32 <==> x is Int32)
            &&& (c is UInt32 <==> x is Uint32)
            &&& (c is Int16 <==> x is Int16)
            &&& (c is UInt16 <==> x is Uint16)
            &&& (c is Int64 <==> x is Int64)
            &&& (c is UInt64 <==> x is Uint64)
            &&& (c is Int8 <==> x is Int8)
            &&& (c is UInt8 <==> x is Uint8)
            &&& (c is Bool <==> x is Boolean)
        },
        code != other && spec_field_descriptor_type(code) is Some ==> spec_field_descriptor_type(code)
            != spec_field_descriptor_type(other),
{
}

/// The codes of the C API: 0 text, then the 32-, 16-, 64- and 8-bit integers
/// (signed before unsigned), then booleans.
pub proof fn law_field_code_table(code: u32)
    ensures
        code == 0 <==> spec_field_descriptor_type(code) == Some((CdrFieldType::String, ScalarTypeIdentifier::String8)),
        code == 1 <==> spec_field_descriptor_type(code) == Some((CdrFieldType::Int32, ScalarTypeIdentifier::Int32)),
        code == 2 <==> spec_field_descriptor_type(code) == Some((CdrFieldType::UInt32, ScalarTypeIdentifier::Uint32)),
        code == 3 <==> spec_field_descriptor_type(code) == Some((CdrFieldType::Int16, ScalarTypeIdentifier::Int16)),
        code == 4 <==> spec_field_descriptor_type(code) == Some((CdrFieldType::UInt16, ScalarTypeIdentifier::Uint16)),
        code == 5 <==> spec_field_descriptor_type(code) == Some((CdrFieldType::Int64, ScalarTypeIdentifier::Int64)),
        code == 6 <==> spec_field_descriptor_type(code) == Some((CdrFieldType::UInt64, ScalarTypeIdentifier::Uint64)),
        code == 7 <==> spec_field_descriptor_type(code) == Some((CdrFieldType::Int8, ScalarTypeIdentifier::Int8)),
        code == 8 <==> spec_field_descriptor_type(code) == Some((CdrFieldType::UInt8, ScalarTypeIdentifier::Uint8)),
        code == 9 <==> spec_field_descriptor_type(code) == Some((CdrFieldType::Bool, ScalarTypeIdentifier::Boolean)),
{
}

/// Field `i` of the read fields keeps the name and key flag given for it
/// and carries the CDR type and type identifier of its code.
pub open spec fn field_as_given(
    f: (Seq<char>, CdrFieldType, ScalarTypeIdentifier, bool),
    name: CName,
    code: u32,
    key: bool,
) -> bool {
    &&& name is Text
    &&& f.0 == name->Text_0@
    &&& f.3 == key
    &&& spec_field_descriptor_type(code) == Some((f.1, f.2))
}

/// Reading the first `n` fields keeps field `i` as given.
proof fn lemma_topic_field_at(names: Seq<CName>, codes: Seq<u32>, keys: Seq<bool>, n: nat, i: int)
    requires
        0 <= i < n,
        spec_topic_fields(names, codes, keys, n) is Ok,
    ensures
        spec_topic_fields(names, codes, keys, n)->Ok_0.len() == n,
        field_as_given(spec_topic_fields(names, codes, keys, n)->Ok_0[i], names[i], codes[i], keys[i]),
    decreases n,
{
    if i < n - 1 {
        lemma_topic_field_at(names, codes, keys, (n - 1) as nat, i);
    } else if n > 1 {
        lemma_topic_field_at(names, codes, keys, (n - 1) as nat, 0);
    }
}

/// A field of a field-descriptor topic is written and announced as the
/// same scalar type (see `law_field_codes_agree`), keeps its name and key
/// flag, and fields come out in the order given.
pub proof fn law_topic_fields_agree(names: Seq<CName>, codes: Seq<u32>, keys: Seq<bool>, n: nat)
    ensures
        spec_topic_fields(names, codes, keys, n) is Ok ==> {
            &&& spec_topic_fields(names, codes, keys, n)->Ok_0.len() == n
            &&& forall|i: int|
                0 <= i < n ==> field_as_given(
                    #[trigger] spec_topic_fields(names, codes, keys, n)->Ok_0[i],
                    names[i],
                    codes[i],
                    keys[i],
                )
        },
{
    if spec_topic_fields(names, codes, keys, n) is Ok {
        if n > 0 {
            lemma_topic_field_at(names, codes, keys, n, 0);
        }
        assert forall|i: int| 0 <= i < n implies field_as_given(
            #[trigger] spec_topic_fields(names, codes, keys, n)->Ok_0[i],
            names[i],
            codes[i],
            keys[i],
        ) by {
            lemma_topic_field_at(names, codes, keys, n, i);
        }
    }
}

/// One field of a field-descriptor topic: its name (a null name or one that
/// is not UTF-8 is an invalid argument), then its type code (an unknown code
/// is an invalid argument), and whether it is a key.
pub open spec fn spec_topic_field(name: CName, code: u32, is_key: bool) -> Result<
    (Seq<char>, CdrFieldType, ScalarTypeIdentifier, bool),
    Int2DdsRet,
> {
    match name {
        CName::Text(s) => match spec_field_descriptor_type(code) {
            Some((c, x)) => Ok((s@, c, x, is_key)),
            None => Err(INT2DDS_RET_INVALID_ARGUMENT),
        },
        _ => Err(INT2DDS_RET_INVALID_ARGUMENT),
    }
}

/// The first `n` fields read in order; the first failure is reported.
pub open spec fn spec_topic_fields(names: Seq<CName>, codes: Seq<u32>, keys: Seq<bool>, n: nat) -> Result<
    Seq<(Seq<char>, CdrFieldType, ScalarTypeIdentifier, bool)>,
    Int2DdsRet,
>
    decreases n,
{
    if n == 0 {
        Ok(Seq::empty())
    } else {
        match spec_topic_fields(names, codes, keys, (n - 1) as nat) {
            Err(e) => Err(e),
            Ok(prefix) => match spec_topic_field(names[n - 1], codes[n - 1], keys[n - 1]) {
                Err(e) => Err(e),
                Ok(f) => Ok(prefix.push(f)),
            },
        }
    }
}

/// The mathematical values of read fields.
pub open spec fn topic_fields_view(v: Seq<(String, CdrFieldType, ScalarTypeIdentifier, bool)>) -> Seq<
    (Seq<char>, CdrFieldType, ScalarTypeIdentifier, bool),
> {
    Seq::new(v.len(), |i: int| (v[i].0@, v[i].1, v[i].2, v[i].3))
}

/// Once reading the first `n` fields fails, reading more fails the same way.
pub proof fn lemma_topic_fields_err(names: Seq<CName>, codes: Seq<u32>, keys: Seq<bool>, n: nat, m: nat)
    requires
        n <= m,
        spec_topic_fields(names, codes, keys, n) is Err,
    ensures
        spec_topic_fields(names, codes, keys, m) == spec_topic_fields(names, codes, keys, n),
    decreases m - n,
{
    if n < m {
        lemma_topic_fields_err(names, codes, keys, n, (m - 1) as nat);
    }
}

/// The fields of a topic created from flat field descriptors (`count`
/// names, type codes and key flags), read in order, and whether any of them
/// is a key.
pub fn topic_fields(names: &Vec<CName>, type_codes: &Vec<u32>, is_key: &Vec<bool>, count: usize) -> (r: Result<
    (Vec<(String, CdrFieldType, ScalarTypeIdentifier, bool)>, bool),
    Int2DdsRet,
>)
    requires
        names@.len() >= count,
        type_codes@.len() >= count,
        is_key@.len() >= count,
    ensures
        match spec_topic_fields(names@, type_codes@, is_key@, count as nat) {
            Ok(fs) => r matches Ok((v, has_key)) && topic_fields_view(v@) == fs && has_key == exists|i: int|
                0 <= i < count && #[trigger] is_key@[i],
            Err(e) => r == Err::<(Vec<(String, CdrFieldType, ScalarTypeIdentifier, bool)>, bool), Int2DdsRet>(e),
        },
{
    let mut out: Vec<(String, CdrFieldType, ScalarTypeIdentifier, bool)> = Vec::new();
    let mut has_key = false;
    let mut i: usize = 0;
    assert(topic_fields_view(out@) =~= Seq::<(Seq<char>, CdrFieldType, ScalarTypeIdentifier, bool)>::empty());
    while i < count
        invariant
            i <= count,
            out@.len() == i,
            names@.len() >= count,
            type_codes@.len() >= count,
            is_key@.len() >= count,
            spec_topic_fields(names@, type_codes@, is_key@, i as nat) == Ok::<
                Seq<(Seq<char>, CdrFieldType, ScalarTypeIdentifier, bool)>,
                Int2DdsRet,
            >(topic_fields_view(out@)),
            has_key == exists|j: int| 0 <= j < i && #[trigger] is_key@[j],
        decreases count - i,
    {
        let name = match &names[i] {
            CName::Text(s) => owned(s.as_str()),
            _ => {
                proof {
                    lemma_topic_fields_err(names@, type_codes@, is_key@, (i + 1) as nat, count as nat);
                }
                return Err(INT2DDS_RET_INVALID_ARGUMENT);
            },
        };
        let key = is_key[i];
        let (cdr_type, type_id) = match field_descriptor_type(type_codes[i]) {
            Some(t) => t,
            None => {
                proof {
                    lemma_topic_fields_err(names@, type_codes@, is_key@, (i + 1) as nat, count as nat);
                }
                return Err(INT2DDS_RET_INVALID_ARGUMENT);
            },
        };
        let ghost prev = topic_fields_view(out@);
        out.push((name, cdr_type, type_id, key));
        assert(topic_fields_view(out@) =~= prev.push((out@[i as int].0@, cdr_type, type_id, key)));
        if key {
            has_key = true;
        }
        proof {
            if has_key && !key {
                let w = choose|j: int| 0 <= j < i && #[trigger] is_key@[j];
                assert(0 <= w < i + 1 && is_key@[w]);
            }
            if key {
                assert(0 <= i < i + 1 && is_key@[i as int]);
            }
        }
        i += 1;
    }
    Ok((out, has_key))
}

} // verus!
