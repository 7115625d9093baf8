//! The last error message: the reason that an `i32` return code drops, kept
//! for a binding to read back. One slot per thread; the slot itself is plain
//! data here.

use vstd::prelude::*;
use vstd::string::StringSliceAdditionalSpecFns;
use vstd::utf8::{encode_utf8, is_char_boundary};

use crate::text::owned;

verus! {

/// The last error message of one thread.
#[derive(Debug)]
pub struct LastError {
    pub message: Option<String>,
}

impl LastError {
    /// An empty slot.
    pub fn new() -> (r: Self)
        ensures
            r.message is None,
    {
        LastError { message: None }
    }
}

/// Store a message (only the `Error` variant carries one).
pub fn set_last_error(slot: &mut LastError, msg: &str)
    ensures
        final(slot).message matches Some(m) && m@ == msg@,
{
    slot.message = Some(owned(msg));
}

/// Clear the message (failures without a reason).
pub fn clear_last_error(slot: &mut LastError)
    ensures
        final(slot).message is None,
{
    slot.message = None;
}

/// UTF-8 bytes of the stored message; empty when there is none.
pub open spec fn message_bytes(slot: LastError) -> Seq<u8> {
    match slot.message {
        Some(m) => encode_utf8(m@),
        None => Seq::empty(),
    }
}

/// The largest character boundary of `bytes` that is at most `limit`.
pub open spec fn boundary_at_most(bytes: Seq<u8>, limit: int) -> int {
    choose|e: int|
        0 <= e <= limit && e <= bytes.len() && is_char_boundary(bytes, e) && forall|k: int|
            e < k <= limit && k <= bytes.len() ==> !is_char_boundary(bytes, k)
}

/// The full message length, and what a C buffer of `buf_len` bytes receives.
///
/// Without a buffer (`has_buffer` false, or `buf_len <= 0`) nothing is
/// written. Otherwise the message is cut at the largest UTF-8 character
/// boundary that leaves room for the terminating NUL, and the written bytes
/// are that prefix followed by a NUL. The returned length is always the full,
/// untruncated byte length.
pub fn last_error_message(slot: &LastError, has_buffer: bool, buf_len: i32) -> (r: (i32, Option<Vec<u8>>))
    ensures
        r.0 == #[verifier::truncate] (message_bytes(*slot).len() as i32),
        !has_buffer || buf_len <= 0 ==> r.1 is None,
        has_buffer && buf_len > 0 ==> {
            let bytes = message_bytes(*slot);
            let end = boundary_at_most(bytes, buf_len - 1);
            &&& 0 <= end <= buf_len - 1
            &&& end <= bytes.len()
            &&& is_char_boundary(bytes, end)
            &&& forall|k: int| end < k <= buf_len - 1 && k <= bytes.len() ==> !is_char_boundary(bytes, k)
            &&& r.1 matches Some(v) && v@ == bytes.take(end).push(0u8)
        },
{
    let msg: &str = match &slot.message {
        Some(m) => m.as_str(),
        None => "",
    };
    proof {
        reveal_strlit("");
        if slot.message is None {
            assert(msg@ =~= Seq::<char>::empty());
            assert(encode_utf8(msg@) =~= Seq::<u8>::empty());
        }
        assert(msg.spec_bytes() == message_bytes(*slot));
        vstd::utf8::encode_utf8_valid_utf8(msg@);
    }
    let full_len = msg.as_bytes().len();
    if !has_buffer || buf_len <= 0 {
        return (#[verifier::truncate] (full_len as i32), None);
    }
    let max_bytes = (buf_len as usize) - 1;
    let mut end: usize = if max_bytes < full_len { max_bytes } else { full_len };
    let ghost bytes = msg.spec_bytes();
    while end > 0 && !msg.is_char_boundary(end)
        invariant
            end <= max_bytes,
            end <= full_len,
            full_len == bytes.len(),
            bytes == msg.spec_bytes(),
            forall|k: int| end < k <= max_bytes && k <= bytes.len() ==> !is_char_boundary(bytes, k),
        decreases end,
    {
        end -= 1;
    }
    proof {
        if end == 0 {
            assert(is_char_boundary(bytes, 0));
        }
        let e = boundary_at_most(bytes, max_bytes as int);
        assert(0 <= end <= max_bytes && end <= bytes.len() && is_char_boundary(bytes, end as int) && forall|k: int|
            end < k <= max_bytes && k <= bytes.len() ==> !is_char_boundary(bytes, k));
        if e != end {
            if e < end {
                assert(!is_char_boundary(bytes, end as int));
            } else {
                assert(!is_char_boundary(bytes, e));
            }
        }
    }
    let all = msg.as_bytes();
    let mut out: Vec<u8> = Vec::new();
    let mut i: usize = 0;
    while i < end
        invariant
            i <= end,
            end <= all@.len(),
            all@ == bytes,
            out@ == bytes.take(i as int),
        decreases end - i,
    {
        out.push(all[i]);
        i += 1;
        assert(out@ =~= bytes.take(i as int));
    }
    out.push(0u8);
    (#[verifier::truncate] (full_len as i32), Some(out))
}

/// A stored message reads back whole: after `set_last_error` with `msg`, a
/// buffer with room for the message and a NUL receives exactly the message's
/// bytes followed by a NUL.
pub proof fn law_message_reads_back(slot: LastError, msg: Seq<char>, buf_len: i32)
    requires
        slot.message matches Some(m) && m@ == msg,
        buf_len > encode_utf8(msg).len(),
    ensures
        boundary_at_most(message_bytes(slot), buf_len - 1) == encode_utf8(msg).len(),
        message_bytes(slot).take(encode_utf8(msg).len() as int) == encode_utf8(msg),
{
    let bytes = message_bytes(slot);
    vstd::utf8::encode_utf8_valid_utf8(msg);
    vstd::utf8::is_char_boundary_start_end_of_seq(bytes);
    let n = bytes.len() as int;
    let e = boundary_at_most(bytes, buf_len - 1);
    assert(0 <= n <= buf_len - 1 && n <= bytes.len() && is_char_boundary(bytes, n) && forall|k: int|
        n < k <= buf_len - 1 && k <= bytes.len() ==> !is_char_boundary(bytes, k));
    if e < n {
        assert(!is_char_boundary(bytes, n));
    }
    assert(bytes.take(n) =~= bytes);
}

} // verus!
