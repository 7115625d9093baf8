# int2dds_ffi

The logic behind the C interface of the int2DDS middleware, written in Verus
and proved against its contracts.

## Layout

- `src/` — the verified library.
  - `cdr.rs`, `codec_spec.rs`, `codec.rs`: CDR and XCDR2 encoding of single
    field values, as spec functions and as executable code proved to follow
    them.
  - `encoding.rs`, `dynamic_type_support.rs`: whole samples of runtime-defined
    types (Final, Appendable and Mutable), keys, size estimates and format
    detection.
  - `round_trip.rs`: the laws that decoding an encoding gives the sample back.
  - `key_hash.rs`: instance keys, and the law that they depend on key fields only.
  - `type_descriptor.rs`, `data.rs`, `type_object.rs`: runtime type
    descriptions, samples, and their XTypes type objects.
  - `dynamic.rs`, `dynamic_value.rs`: dynamic value trees and field paths.
  - `c_layout.rs`: validation of C offset-layout tables.
  - `qos.rs`, `read_condition.rs`, `status.rs`, `status_condition.rs`, `subscriber.rs`,
    `discovery.rs`, `sample_seq.rs`, `topic.rs`, `types.rs`, `abi.rs`,
    `error.rs`, `last_error.rs`, `text.rs`: the codes, masks, statuses and
    small decisions of the C API.
- `tests/` — tests of the library on concrete values.
- `app/` — the C ABI layer: reads raw pointers into plain values, calls the
  library, writes results back.

## What is not here

The C entry points that drive the DDS core itself are absent: creating and
deleting participants, topics, publishers, subscribers, readers and
writers; QoS objects; wait sets, guard and status conditions; listeners and
discovery callbacks; built-in topic data; type-object introspection; the XML
type registry; the environment settings; writing and taking samples; and
binding, encoding and decoding through a C layout. Each of them calls into
the core DDS crate, which this build does not have. What those entry points
decide on plain values stands in `src/` (for example the read outcomes in
`sample_seq.rs`, the discovery waits in `dynamic.rs` and `discovery.rs`, the
state masks in `subscriber.rs` and `read_condition.rs`, and the field list of
a field-descriptor topic in `topic.rs`), and is verified there.
