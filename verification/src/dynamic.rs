//! Dynamic-type introspection helpers: member information records, field
//! path segments such as `items[2]`, and copying names out to C buffers.

use vstd::prelude::*;
use vstd::string::StringSliceAdditionalSpecFns;
use vstd::utf8::{encode_utf8, is_char_boundary};

use crate::abi::{all_digits, decimal_value};
use crate::dynamic_value::{DynamicData, DynamicValue};
use crate::text::str_equal;
use crate::error::{
    Int2DdsRet, INT2DDS_RET_DYNAMIC_DECODE_ERROR, INT2DDS_RET_DYNAMIC_FIELD_NOT_FOUND, INT2DDS_RET_DYNAMIC_TYPE_MISMATCH,
    INT2DDS_RET_NULL_POINTER, INT2DDS_RET_OK,
};

verus! {

/// Per-member information of a discovered type.
#[derive(Debug, Clone, Copy)]
pub struct Int2DdsMemberInfo {
    pub member_id: u32,
    pub kind: i32,
    pub flags: i32,
}

/// Index of the first `[` byte.
pub open spec fn first_bracket(bytes: Seq<u8>) -> Option<int> {
    if exists|i: int| 0 <= i < bytes.len() && bytes[i] == 91u8 {
        Some(choose|i: int| 0 <= i < bytes.len() && bytes[i] == 91u8 && forall|j: int| 0 <= j < i ==> bytes[j] != 91u8)
    } else {
        None
    }
}

/// The `usize` that `digits` spells as Rust's `str::parse` reads it: an
/// optional `+`, then one or more decimal digits, within `usize`.
pub open spec fn spec_parse_usize(s: Seq<u8>) -> Option<usize> {
    let d = if s.len() > 0 && s[0] == 43u8 {
        s.drop_first()
    } else {
        s
    };
    if d.len() > 0 && all_digits(d) && decimal_value(d) <= usize::MAX {
        Some(decimal_value(d) as usize)
    } else {
        None
    }
}

/// The index a segment's bracket suffix spells: the text between the first
/// `[` and a final `]`, parsed as `usize`.
pub open spec fn spec_segment_index(bytes: Seq<u8>, open: int) -> Option<usize> {
    let rest = bytes.subrange(open + 1, bytes.len() as int);
    if rest.len() > 0 && rest.last() == 93u8 {
        spec_parse_usize(rest.drop_last())
    } else {
        None
    }
}

/// Parse a decimal index as `str::parse::<usize>` does.
pub fn parse_usize(s: &[u8]) -> (r: Option<usize>)
    ensures
        r == spec_parse_usize(s@),
{
    let mut start: usize = 0;
    if s.len() > 0 && s[0] == 43u8 {
        start = 1;
    }
    let ghost d = s@.subrange(start as int, s@.len() as int);
    assert(d == if s@.len() > 0 && s@[0] == 43u8 {
        s@.drop_first()
    } else {
        s@
    });
    if start == s.len() {
        return None;
    }
    let mut value: usize = 0;
    let mut i: usize = start;
    while i < s.len()
        invariant
            start <= i <= s@.len(),
            start < s@.len(),
            d == s@.subrange(start as int, s@.len() as int),
            d == (if s@.len() > 0 && s@[0] == 43u8 {
                s@.drop_first()
            } else {
                s@
            }),
            all_digits(s@.subrange(start as int, i as int)),
            value == decimal_value(s@.subrange(start as int, i as int)),
        decreases s@.len() - i,
    {
        let ghost pre = s@.subrange(start as int, i as int);
        let ghost next = s@.subrange(start as int, i + 1);
        assert(next.drop_last() =~= pre);
        let c = s[i];
        if c < 48 || c > 57 {
            proof {
                assert(d[i - start] == c);
            }
            return None;
        }
        let digit = (c - 48) as usize;
        if value > (usize::MAX - digit) / 10 {
            proof {
                assert(d.take(i - start) =~= pre);
                assert(d[i - start] == c);
                lemma_decimal_grows(d, (i + 1 - start) as nat, value as nat, digit as nat);
            }
            return None;
        }
        value = value * 10 + digit;
        i += 1;
    }
    assert(s@.subrange(start as int, i as int) =~= d);
    Some(value)
}

/// Once the value of a prefix of digits exceeds a bound, so does the value of
/// every longer digit string.
pub proof fn lemma_decimal_grows(d: Seq<u8>, n: nat, prev: nat, digit: nat)
    requires
        0 < n <= d.len(),
        all_digits(d.take(n - 1)),
        48 <= d[n - 1] <= 57,
        prev == decimal_value(d.take(n - 1)),
        digit == d[n - 1] - 48,
        prev > (usize::MAX - digit) / 10,
    ensures
        !(all_digits(d) && decimal_value(d) <= usize::MAX),
{
    assert(d.take(n as int).drop_last() =~= d.take(n - 1));
    assert(decimal_value(d.take(n as int)) == prev * 10 + digit);
    assert(prev * 10 + digit > usize::MAX) by (nonlinear_arith)
        requires
            prev > (usize::MAX - digit) / 10,
            digit <= 9,
    ;
    if all_digits(d) {
        crate::abi::lemma_decimal_prefix_bound(d, n as int);
    }
}

/// Split a path segment such as `items[2]` into its name and index. Without
/// a `[` the whole segment is the name; otherwise the name ends before the
/// first `[`, and the index is present only when the rest is a `usize`
/// between `[` and a final `]`.
pub fn split_index(seg: &str) -> (r: (&str, Option<usize>))
    ensures
        match first_bracket(seg.spec_bytes()) {
            None => r.0@ == seg@ && r.1 is None,
            Some(i) => r.0.spec_bytes() == seg.spec_bytes().subrange(0, i) && r.1 == spec_segment_index(
                seg.spec_bytes(),
                i,
            ),
        },
{
    let bytes = seg.as_bytes();
    let mut i: usize = 0;
    while i < bytes.len()
        invariant
            i <= bytes@.len(),
            bytes@ == seg.spec_bytes(),
            forall|j: int| 0 <= j < i ==> bytes@[j] != 91u8,
        decreases bytes@.len() - i,
    {
        if bytes[i] == 91u8 {
            proof {
                lemma_first_bracket_is(bytes@, i as int);
                vstd::utf8::encode_utf8_valid_utf8(seg@);
                assert(vstd::utf8::valid_utf8(bytes@));
                vstd::utf8::is_char_boundary_iff_not_is_continuation_byte(bytes@, i as int);
            }
            assert(is_char_boundary(seg.spec_bytes(), i as int));
            let (name, _rest) = seg.split_at(i);
            let len = bytes.len();
            let mut inner: Vec<u8> = Vec::new();
            let index = if len - (i + 1) > 0 && bytes[len - 1] == 93u8 {
                let mut k: usize = i + 1;
                while k < len - 1
                    invariant
                        i + 1 <= k <= len - 1,
                        len == bytes@.len(),
                        inner@ == bytes@.subrange(i + 1, k as int),
                    decreases len - 1 - k,
                {
                    inner.push(bytes[k]);
                    k += 1;
                    assert(inner@ =~= bytes@.subrange(i + 1, k as int));
                }
                assert(inner@ =~= bytes@.subrange(i + 1, len as int).drop_last());
                parse_usize(inner.as_slice())
            } else {
                None
            };
            return (name, index);
        }
        i += 1;
    }
    proof {
        if exists|j: int| 0 <= j < bytes@.len() && bytes@[j] == 91u8 {
            let w = choose|j: int| 0 <= j < bytes@.len() && bytes@[j] == 91u8;
            assert(bytes@[w] != 91u8);
        }
    }
    (seg, None)
}

/// The least index of a `[` byte is the one `first_bracket` names.
pub proof fn lemma_first_bracket_is(bytes: Seq<u8>, i: int)
    requires
        0 <= i < bytes.len(),
        bytes[i] == 91u8,
        forall|j: int| 0 <= j < i ==> bytes[j] != 91u8,
    ensures
        first_bracket(bytes) == Some(i),
{
    let k = choose|k: int| 0 <= k < bytes.len() && bytes[k] == 91u8 && forall|j: int| 0 <= j < k ==> bytes[j] != 91u8;
    assert(exists|k: int| 0 <= k < bytes.len() && bytes[k] == 91u8 && forall|j: int| 0 <= j < k ==> bytes[j] != 91u8);
    if k < i {
        assert(bytes[k] != 91u8);
    }
    if i < k {
        assert(bytes[i] != 91u8);
    }
}

/// Copying a name into a C buffer of `buf_len` bytes: a null buffer or null
/// length slot is a null-pointer error; otherwise the byte length (without
/// NUL) is reported, and a buffer that cannot hold the bytes and a NUL is a
/// decode error. Gives the code, the length reported and the bytes written.
pub fn copy_str_to_c(s: &str, has_buf: bool, buf_len: usize, has_out_len: bool) -> (r: (
    Int2DdsRet,
    Option<usize>,
    Option<Vec<u8>>,
))
    ensures
        (!has_buf || !has_out_len) ==> r == (INT2DDS_RET_NULL_POINTER, None::<usize>, None::<Vec<u8>>),
        (has_buf && has_out_len) ==> r.1 == Some(s.spec_bytes().len() as usize),
        (has_buf && has_out_len && buf_len < s.spec_bytes().len() + 1) ==> r.0 == INT2DDS_RET_DYNAMIC_DECODE_ERROR
            && r.2 is None,
        (has_buf && has_out_len && buf_len >= s.spec_bytes().len() + 1) ==> r.0 == INT2DDS_RET_OK && (r.2 matches Some(
            v,
        ) && v@ == s.spec_bytes().push(0u8)),
{
    if !has_buf || !has_out_len {
        return (INT2DDS_RET_NULL_POINTER, None, None);
    }
    let bytes = s.as_bytes();
    let n = bytes.len();
    if buf_len < n || buf_len - n < 1 {
        return (INT2DDS_RET_DYNAMIC_DECODE_ERROR, Some(n), None);
    }
    let mut out: Vec<u8> = Vec::new();
    let mut i: usize = 0;
    while i < n
        invariant
            n == bytes@.len(),
            i <= n,
            out@ == bytes@.take(i as int),
        decreases n - i,
    {
        out.push(bytes[i]);
        i += 1;
        assert(out@ =~= bytes@.take(i as int));
    }
    out.push(0u8);
    assert(bytes@.take(n as int) =~= bytes@);
    (INT2DDS_RET_OK, Some(n), Some(out))
}

/// Whether a discovered publication's topic passes the topic filter: every
/// topic passes no filter.
pub open spec fn spec_topic_passes(topic: Seq<char>, filter: Option<Seq<char>>) -> bool {
    match filter {
        None => true,
        Some(want) => topic == want,
    }
}

/// A read sample passes when its data could be read and its topic passes
/// the filter.
pub open spec fn spec_sample_passes(sample: Option<String>, filter: Option<Seq<char>>) -> bool {
    match sample {
        Some(t) => spec_topic_passes(t@, filter),
        None => false,
    }
}

/// The text of an optional filter.
pub open spec fn filter_view(filter: Option<&str>) -> Option<Seq<char>> {
    match filter {
        Some(f) => Some(f@),
        None => None,
    }
}

/// The first read publication sample that a take hands out: the first whose
/// data could be read (`Some`) and whose topic passes the filter.
pub fn first_matching_publication(topics: &Vec<Option<String>>, filter: Option<&str>) -> (r: Option<usize>)
    ensures
        r matches Some(i) ==> i < topics@.len() && spec_sample_passes(topics@[i as int], filter_view(filter)),
        r matches Some(i) ==> forall|j: int| 0 <= j < i ==> !spec_sample_passes(#[trigger] topics@[j], filter_view(filter)),
        r is None ==> forall|j: int| 0 <= j < topics@.len() ==> !spec_sample_passes(#[trigger] topics@[j], filter_view(filter)),
{
    let mut i: usize = 0;
    while i < topics.len()
        invariant
            i <= topics@.len(),
            forall|j: int| 0 <= j < i ==> !spec_sample_passes(#[trigger] topics@[j], filter_view(filter)),
        decreases topics@.len() - i,
    {
        if let Some(t) = &topics[i] {
            let passes = match filter {
                None => true,
                Some(f) => str_equal(t.as_str(), f),
            };
            if passes {
                return Some(i);
            }
        }
        i += 1;
    }
    None
}

/// A read publication sample a type-object wait can use: its data could be
/// read, its topic is the one waited for, and it carries a type object.
pub open spec fn spec_has_type_object_for(sample: Option<(String, bool)>, topic: Seq<char>) -> bool {
    match sample {
        Some((t, has_type_object)) => t@ == topic && has_type_object,
        None => false,
    }
}

/// The publication a wait for a type object settles on: the first read
/// sample (topic name, whether it carries a type object) of the topic that
/// carries a type object; publications of the topic without one are passed
/// over, so the wait times out only when no publication of the topic carries
/// a type object.
pub fn first_publication_with_type_object(samples: &Vec<Option<(String, bool)>>, topic_name: &str) -> (r: Option<
    usize,
>)
    ensures
        r matches Some(i) ==> i < samples@.len() && spec_has_type_object_for(samples@[i as int], topic_name@),
        r matches Some(i) ==> forall|j: int| 0 <= j < i ==> !spec_has_type_object_for(#[trigger] samples@[j], topic_name@),
        r is None ==> forall|j: int| 0 <= j < samples@.len() ==> !spec_has_type_object_for(#[trigger] samples@[j], topic_name@),
{
    let mut i: usize = 0;
    while i < samples.len()
        invariant
            i <= samples@.len(),
            forall|j: int| 0 <= j < i ==> !spec_has_type_object_for(#[trigger] samples@[j], topic_name@),
        decreases samples@.len() - i,
    {
        if let Some((t, has_type_object)) = &samples[i] {
            if *has_type_object && str_equal(t.as_str(), topic_name) {
                return Some(i);
            }
        }
        i += 1;
    }
    None
}

/// What a take of discovery data does when no sample matched.
#[derive(Debug, Clone, Copy, PartialEq, Eq, Structural)]
pub enum TakeWait {
    /// The deadline has passed: give up with a timeout.
    Timeout,
    /// Wait for new samples for the duration, then read again.
    Wait { sec: i32, nanosec: u32 },
}

/// A wait of the time remaining, at most one second.
pub open spec fn spec_wait_for(remaining_ms: u128) -> TakeWait {
    let w = if remaining_ms < 1000 {
        remaining_ms
    } else {
        1000
    };
    TakeWait::Wait { sec: (w / 1000) as i32, nanosec: ((w % 1000) * 1_000_000) as u32 }
}

/// The wait of a discovery take: without a timeout (negative `timeout_ms`)
/// one second; with one, a timeout once the deadline has passed, else the
/// time remaining, at most one second.
pub fn take_wait(timeout_ms: i32, deadline_passed: bool, remaining_ms: u128) -> (r: TakeWait)
    ensures
        timeout_ms < 0 ==> r == (TakeWait::Wait { sec: 1, nanosec: 0 }),
        timeout_ms >= 0 && deadline_passed ==> r == TakeWait::Timeout,
        timeout_ms >= 0 && !deadline_passed ==> r == spec_wait_for(remaining_ms),
{
    if timeout_ms < 0 {
        TakeWait::Wait { sec: 1, nanosec: 0 }
    } else if deadline_passed {
        TakeWait::Timeout
    } else {
        let wait_ms: i32 = if remaining_ms < 1000 {
            remaining_ms as i32
        } else {
            1000
        };
        TakeWait::Wait { sec: wait_ms / 1000, nanosec: ((wait_ms % 1000) as u32) * 1_000_000 }
    }
}

/// The outcome of one round of waiting for a type object: the return code
/// of the discovery take, whether a publication carrying a type object was
/// found (see `first_publication_with_type_object`), and the return code of
/// copying its type name out. `None` means none was found yet and the wait
/// goes on.
pub fn type_object_wait_outcome(take_ret: Int2DdsRet, has_type_object: bool, name_ret: Int2DdsRet) -> (r: Option<Int2DdsRet>)
    ensures
        take_ret != INT2DDS_RET_OK ==> r == Some(take_ret),
        take_ret == INT2DDS_RET_OK && has_type_object ==> r == Some(name_ret),
        take_ret == INT2DDS_RET_OK && !has_type_object ==> r is None,
{
    if take_ret != INT2DDS_RET_OK {
        Some(take_ret)
    } else if has_type_object {
        Some(name_ret)
    } else {
        None
    }
}

/// The timeout handed to each discovery take while waiting for a type
/// object: none (negative) without a deadline, else the milliseconds left,
/// cast to `i32` as C receives them.
pub fn take_timeout_ms(timeout_ms: i32, remaining_ms: u128) -> (r: i32)
    ensures
        timeout_ms < 0 ==> r == -1,
        timeout_ms >= 0 ==> r == remaining_ms as i32,
{
    if timeout_ms < 0 {
        -1
    } else {
        #[verifier::truncate]
        (remaining_ms as i32)
    }
}

/// Index of the first `.` byte.
pub open spec fn first_dot(bytes: Seq<u8>) -> Option<int> {
    if exists|i: int| 0 <= i < bytes.len() && bytes[i] == 46u8 {
        Some(choose|i: int| 0 <= i < bytes.len() && bytes[i] == 46u8 && forall|j: int| 0 <= j < i ==> bytes[j] != 46u8)
    } else {
        None
    }
}

/// The value of the first member whose name has the UTF-8 bytes `name`.
pub open spec fn spec_member(members: Seq<(String, DynamicValue)>, name: Seq<u8>) -> Option<DynamicValue> {
    if exists|i: int| 0 <= i < members.len() && encode_utf8(#[trigger] members[i].0@) == name {
        let i = choose|i: int|
            0 <= i < members.len() && encode_utf8(members[i].0@) == name && forall|j: int|
                0 <= j < i ==> encode_utf8(#[trigger] members[j].0@) != name;
        Some(members[i].1)
    } else {
        None
    }
}

/// The element `k` of a sequence or array value.
pub open spec fn spec_element(v: DynamicValue, k: usize) -> Option<DynamicValue> {
    match v {
        DynamicValue::Sequence(items) => if k < items@.len() {
            Some(items@[k as int])
        } else {
            None
        },
        DynamicValue::Array(items) => if k < items@.len() {
            Some(items@[k as int])
        } else {
            None
        },
        _ => None,
    }
}

/// One segment of a field path, such as `items[2]`, read from the root
/// (`cur` is `None`) or from the value reached so far: the member with the
/// segment's name, then, when the segment carries an index, that element.
pub open spec fn spec_step(root: DynamicData, cur: Option<DynamicValue>, seg: Seq<u8>) -> Option<DynamicValue> {
    let name = match first_bracket(seg) {
        None => seg,
        Some(i) => seg.subrange(0, i),
    };
    let index = match first_bracket(seg) {
        None => None,
        Some(i) => spec_segment_index(seg, i),
    };
    let found = match cur {
        None => spec_member(root.members@, name),
        Some(DynamicValue::Struct(r)) => spec_member(r.members@, name),
        Some(_) => None,
    };
    match found {
        None => None,
        Some(v) => match index {
            None => Some(v),
            Some(k) => spec_element(v, k),
        },
    }
}

/// The value that the rest of a dotted path reaches from `cur`.
#[verifier::opaque]
pub open spec fn resolve_from(root: DynamicData, cur: Option<DynamicValue>, rest: Seq<u8>) -> Option<DynamicValue>
    decreases rest.len(),
{
    match first_dot(rest) {
        None => spec_step(root, cur, rest),
        Some(d) => if 0 <= d < rest.len() {
            match spec_step(root, cur, rest.subrange(0, d)) {
                None => None,
                Some(n) => resolve_from(root, Some(n), rest.subrange(d + 1, rest.len() as int)),
            }
        } else {
            None
        },
    }
}

/// The least index of a `.` byte is the one `first_dot` names.
pub proof fn lemma_first_dot_is(bytes: Seq<u8>, i: int)
    requires
        0 <= i < bytes.len(),
        bytes[i] == 46u8,
        forall|j: int| 0 <= j < i ==> bytes[j] != 46u8,
    ensures
        first_dot(bytes) == Some(i),
{
    let k = choose|k: int| 0 <= k < bytes.len() && bytes[k] == 46u8 && forall|j: int| 0 <= j < k ==> bytes[j] != 46u8;
    assert(exists|k: int| 0 <= k < bytes.len() && bytes[k] == 46u8 && forall|j: int| 0 <= j < k ==> bytes[j] != 46u8);
    if k < i {
        assert(bytes[k] != 46u8);
    }
    if i < k {
        assert(bytes[i] != 46u8);
    }
}

/// The value of the first member named `name`.
pub fn member_value<'a>(members: &'a Vec<(String, DynamicValue)>, name: &str) -> (r: Option<&'a DynamicValue>)
    ensures
        match spec_member(members@, name.spec_bytes()) {
            Some(v) => r matches Some(n) && *n == v,
            None => r is None,
        },
{
    let mut i: usize = 0;
    while i < members.len()
        invariant
            i <= members@.len(),
            forall|j: int| 0 <= j < i ==> encode_utf8(#[trigger] members@[j].0@) != name.spec_bytes(),
        decreases members@.len() - i,
    {
        let same = str_equal(members[i].0.as_str(), name);
        proof {
            vstd::utf8::encode_utf8_decode_utf8(members@[i as int].0@);
            vstd::utf8::encode_utf8_decode_utf8(name@);
        }
        if same {
            proof {
                let name_bytes = name.spec_bytes();
                let k = choose|k: int|
                    0 <= k < members@.len() && encode_utf8(members@[k].0@) == name_bytes && forall|j: int|
                        0 <= j < k ==> encode_utf8(#[trigger] members@[j].0@) != name_bytes;
                assert(encode_utf8(members@[i as int].0@) == name_bytes);
                assert(exists|k: int|
                    0 <= k < members@.len() && encode_utf8(members@[k].0@) == name_bytes && forall|j: int|
                        0 <= j < k ==> encode_utf8(#[trigger] members@[j].0@) != name_bytes);
                if k < i {
                    assert(encode_utf8(members@[k].0@) != name_bytes);
                }
                if i < k {
                    assert(encode_utf8(members@[i as int].0@) != name_bytes);
                }
            }
            return Some(&members[i].1);
        }
        i += 1;
    }
    None
}

/// The value a reference to a node stands for.
pub open spec fn node_view(n: Option<&DynamicValue>) -> Option<DynamicValue> {
    match n {
        Some(x) => Some(*x),
        None => None,
    }
}

/// Read one segment of a field path from the root (`cur` is `None`) or from
/// the value reached so far.
pub fn path_step<'a>(root: &'a DynamicData, cur: Option<&'a DynamicValue>, seg: &str) -> (r: Option<
    &'a DynamicValue,
>)
    ensures
        node_view(r) == spec_step(*root, node_view(cur), seg.spec_bytes()),
{
    let (name, index) = split_index(seg);
    let found = match cur {
        None => member_value(&root.members, name),
        Some(DynamicValue::Struct(r)) => member_value(&r.members, name),
        Some(_) => None,
    };
    match found {
        None => None,
        Some(v) => match index {
            None => Some(v),
            Some(k) => match v {
                DynamicValue::Sequence(items) => if k < items.len() {
                    Some(&items[k])
                } else {
                    None
                },
                DynamicValue::Array(items) => if k < items.len() {
                    Some(&items[k])
                } else {
                    None
                },
                _ => None,
            },
        },
    }
}

/// One step of `resolve_from`: the last segment is read alone; any other
/// segment is read, and the rest is resolved from what it reached.
pub proof fn lemma_resolve_unfold(root: DynamicData, cur: Option<DynamicValue>, rest: Seq<u8>)
    ensures
        first_dot(rest) is None ==> resolve_from(root, cur, rest) == spec_step(root, cur, rest),
        first_dot(rest) matches Some(d) ==> (0 <= d < rest.len() ==> resolve_from(root, cur, rest) == match spec_step(
            root,
            cur,
            rest.subrange(0, d),
        ) {
            None => None,
            Some(n) => resolve_from(root, Some(n), rest.subrange(d + 1, rest.len() as int)),
        }),
{
    reveal(resolve_from);
}

/// Split a path at its first `.`: the segment before it and, when there is
/// one, the rest after it.
pub fn split_at_dot(rest: &str) -> (r: (&str, Option<&str>))
    ensures
        match first_dot(rest.spec_bytes()) {
            None => r.0.spec_bytes() == rest.spec_bytes() && r.1 is None,
            Some(d) => 0 <= d < rest.spec_bytes().len() && r.0.spec_bytes() == rest.spec_bytes().subrange(0, d) && (r.1 matches Some(t)
                && t.spec_bytes() == rest.spec_bytes().subrange(d + 1, rest.spec_bytes().len() as int)),
        },
{
    let bytes = rest.as_bytes();
    let mut d: usize = 0;
    while d < bytes.len() && bytes[d] != 46u8
        invariant
            d <= bytes@.len(),
            bytes@ == rest.spec_bytes(),
            forall|j: int| 0 <= j < d ==> bytes@[j] != 46u8,
        decreases bytes@.len() - d,
    {
        d += 1;
    }
    if d == bytes.len() {
        proof {
            if exists|i: int| 0 <= i < bytes@.len() && bytes@[i] == 46u8 {
                let w = choose|i: int| 0 <= i < bytes@.len() && bytes@[i] == 46u8;
                assert(bytes@[w] != 46u8);
            }
        }
        return (rest, None);
    }
    proof {
        lemma_first_dot_is(bytes@, d as int);
        vstd::utf8::encode_utf8_valid_utf8(rest@);
        vstd::utf8::is_char_boundary_iff_not_is_continuation_byte(bytes@, d as int);
    }
    let (seg, dotted) = rest.split_at(d);
    proof {
        vstd::utf8::encode_utf8_valid_utf8(dotted@);
        let t = dotted.spec_bytes();
        assert(t[0] == 46u8);
        reveal_with_fuel(vstd::utf8::is_char_boundary, 2);
        assert(vstd::utf8::length_of_first_scalar(t) == 1);
        assert(is_char_boundary(t, 1));
    }
    let (_dot, tail) = dotted.split_at(1);
    assert(tail.spec_bytes() =~= rest.spec_bytes().subrange(d + 1, rest.spec_bytes().len() as int));
    (seg, Some(tail))
}

/// Resolve a dotted and indexed field path, such as `pos.x` or
/// `items[2].name`, to a value: segments are read in order, each from the
/// value the previous one reached.
pub fn resolve_path<'a>(data: &'a DynamicData, path: &str) -> (r: Option<&'a DynamicValue>)
    ensures
        node_view(r) == resolve_from(*data, None, path.spec_bytes()),
{
    let mut current: Option<&'a DynamicValue> = None;
    let mut rest: &str = path;
    loop
        invariant
            resolve_from(*data, node_view(current), rest.spec_bytes()) == resolve_from(*data, None, path.spec_bytes()),
        decreases rest.spec_bytes().len(),
    {
        let (seg, tail) = split_at_dot(rest);
        let next = path_step(data, current, seg);
        proof {
            lemma_resolve_unfold(*data, node_view(current), rest.spec_bytes());
        }
        match tail {
            None => {
                return next;
            },
            Some(t) => {
                match next {
                    None => {
                        return None;
                    },
                    Some(n) => {
                        current = Some(n);
                    },
                }
                rest = t;
            },
        }
    }
}

/// The element count of the sequence or array at a field path: a missing
/// field when the path reaches nothing, a type mismatch for another value.
pub fn int2dds_dynamic_data_get_len(data: &DynamicData, field_path: &str) -> (r: Result<usize, Int2DdsRet>)
    ensures
        match resolve_from(*data, None, field_path.spec_bytes()) {
            None => r == Err::<usize, Int2DdsRet>(INT2DDS_RET_DYNAMIC_FIELD_NOT_FOUND),
            Some(DynamicValue::Sequence(items)) => r == Ok::<usize, Int2DdsRet>(items@.len() as usize),
            Some(DynamicValue::Array(items)) => r == Ok::<usize, Int2DdsRet>(items@.len() as usize),
            Some(_) => r == Err::<usize, Int2DdsRet>(INT2DDS_RET_DYNAMIC_TYPE_MISMATCH),
        },
{
    match resolve_path(data, field_path) {
        Some(DynamicValue::Sequence(items)) => Ok(items.len()),
        Some(DynamicValue::Array(items)) => Ok(items.len()),
        Some(_) => Err(INT2DDS_RET_DYNAMIC_TYPE_MISMATCH),
        None => Err(INT2DDS_RET_DYNAMIC_FIELD_NOT_FOUND),
    }
}

/// The nested struct at a field path: a missing field when the path reaches
/// nothing, a type mismatch for another value.
pub fn int2dds_dynamic_data_get_member<'a>(data: &'a DynamicData, field_path: &str) -> (r: Result<
    &'a DynamicData,
    Int2DdsRet,
>)
    ensures
        match resolve_from(*data, None, field_path.spec_bytes()) {
            None => r == Err::<&DynamicData, Int2DdsRet>(INT2DDS_RET_DYNAMIC_FIELD_NOT_FOUND),
            Some(DynamicValue::Struct(d)) => r matches Ok(x) && *x == *d,
            Some(_) => r == Err::<&DynamicData, Int2DdsRet>(INT2DDS_RET_DYNAMIC_TYPE_MISMATCH),
        },
{
    match resolve_path(data, field_path) {
        Some(DynamicValue::Struct(d)) => Ok(&**d),
        Some(_) => Err(INT2DDS_RET_DYNAMIC_TYPE_MISMATCH),
        None => Err(INT2DDS_RET_DYNAMIC_FIELD_NOT_FOUND),
    }
}

} // verus!
