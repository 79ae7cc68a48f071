//! The identifier by which the metric library tells descriptors apart.

use vstd::prelude::*;

verus! {

/// Where the hash starts.
pub const FNV_OFFSET: u64 = 0xcbf2_9ce4_8422_2325;

/// The byte that ends a name in the hash.
pub const NAME_END: u8 = 0xff;

/// The 64-bit FNV-1a hash after one more byte: exclusive or with the byte, then
/// the low 64 bits of the product with the FNV prime.
pub open spec fn fnv_step(hash: u64, byte: u8) -> u64 {
    ((hash ^ (byte as u64)) * 0x100_0000_01b3u64) as u64
}

/// The 64-bit FNV-1a hash of some bytes.
pub open spec fn fnv_hash(bytes: Seq<u8>) -> u64
    decreases bytes.len(),
{
    if bytes.len() == 0 {
        FNV_OFFSET
    } else {
        fnv_step(fnv_hash(bytes.drop_last()), bytes.last())
    }
}

/// The identifier of the descriptor of a family without constant labels: the hash
/// of its name and an end byte.
pub open spec fn descriptor_id(name: Seq<char>) -> u64 {
    fnv_step(fnv_hash(vstd::utf8::encode_utf8(name)), NAME_END)
}

/// The hash of a text follows from that of the text without its last byte.
proof fn lemma_hash_by_steps(bytes: Seq<u8>)
    ensures
        fnv_hash(bytes.take(0)) == FNV_OFFSET,
        forall|n: int|
            1 <= n <= bytes.len() ==> #[trigger] fnv_hash(bytes.take(n)) == fnv_step(
                fnv_hash(bytes.take(n - 1)),
                bytes[n - 1],
            ),
{
    assert forall|n: int| 1 <= n <= bytes.len() implies #[trigger] fnv_hash(bytes.take(n))
        == fnv_step(fnv_hash(bytes.take(n - 1)), bytes[n - 1]) by {
        assert(bytes.take(n).drop_last() == bytes.take(n - 1));
    }
}

proof fn lemma_simulation_latency_seconds()
    ensures
        descriptor_id("simulation_latency_seconds"@) == 0xe1da6e3c561520a2u64,
{
    reveal_strlit("simulation_latency_seconds");
    let name = "simulation_latency_seconds"@;
    let bytes = vstd::utf8::encode_utf8(name);
    assert(vstd::utf8::is_ascii_chars(name));
    vstd::utf8::is_ascii_chars_encode_utf8(name);
    assert(bytes =~= seq![
        115u8, 105, 109, 117, 108, 97, 116, 105, 111, 110, 95, 108, 97, 116, 101, 110, 99, 121, 95,
        115, 101, 99, 111, 110, 100, 115
    ]);
    lemma_hash_by_steps(bytes);
    assert(bytes.take(26) == bytes);
    assert(
        fnv_step(fnv_step(fnv_step(fnv_step(fnv_step(fnv_step(fnv_step(fnv_step(fnv_step(fnv_step(
        fnv_step(fnv_step(fnv_step(fnv_step(fnv_step(fnv_step(fnv_step(fnv_step(fnv_step(fnv_step(
        fnv_step(fnv_step(fnv_step(fnv_step(fnv_step(fnv_step(fnv_step(0xcbf2_9ce4_8422_2325u64,
        115), 105), 109), 117), 108), 97), 116), 105), 111), 110), 95), 108), 97), 116), 101),
        110), 99), 121), 95), 115), 101), 99), 111), 110), 100), 115), 255)
        == 0xe1da6e3c561520a2u64) by (bit_vector);
}

proof fn lemma_rpc_error_count_total()
    ensures
        descriptor_id("rpc_error_count_total"@) == 0x4b97659d5d40b495u64,
{
    reveal_strlit("rpc_error_count_total");
    let name = "rpc_error_count_total"@;
    let bytes = vstd::utf8::encode_utf8(name);
    assert(vstd::utf8::is_ascii_chars(name));
    vstd::utf8::is_ascii_chars_encode_utf8(name);
    assert(bytes =~= seq![
        114u8, 112, 99, 95, 101, 114, 114, 111, 114, 95, 99, 111, 117, 110, 116, 95, 116, 111, 116,
        97, 108
    ]);
    lemma_hash_by_steps(bytes);
    assert(bytes.take(21) == bytes);
    assert(
        fnv_step(fnv_step(fnv_step(fnv_step(fnv_step(fnv_step(fnv_step(fnv_step(fnv_step(fnv_step(
        fnv_step(fnv_step(fnv_step(fnv_step(fnv_step(fnv_step(fnv_step(fnv_step(fnv_step(fnv_step(
        fnv_step(fnv_step(0xcbf2_9ce4_8422_2325u64, 114), 112), 99), 95), 101), 114), 114), 111),
        114), 95), 99), 111), 117), 110), 116), 95), 116), 111), 116), 97), 108), 255)
        == 0x4b97659d5d40b495u64) by (bit_vector);
}

proof fn lemma_simulation_requests_total()
    ensures
        descriptor_id("simulation_requests_total"@) == 0x835dbd03dbdb7e0du64,
{
    reveal_strlit("simulation_requests_total");
    let name = "simulation_requests_total"@;
    let bytes = vstd::utf8::encode_utf8(name);
    assert(vstd::utf8::is_ascii_chars(name));
    vstd::utf8::is_ascii_chars_encode_utf8(name);
    assert(bytes =~= seq![
        115u8, 105, 109, 117, 108, 97, 116, 105, 111, 110, 95, 114, 101, 113, 117, 101, 115, 116,
        115, 95, 116, 111, 116, 97, 108
    ]);
    lemma_hash_by_steps(bytes);
    assert(bytes.take(25) == bytes);
    assert(
        fnv_step(fnv_step(fnv_step(fnv_step(fnv_step(fnv_step(fnv_step(fnv_step(fnv_step(fnv_step(
        fnv_step(fnv_step(fnv_step(fnv_step(fnv_step(fnv_step(fnv_step(fnv_step(fnv_step(fnv_step(
        fnv_step(fnv_step(fnv_step(fnv_step(fnv_step(fnv_step(0xcbf2_9ce4_8422_2325u64, 115), 105),
        109), 117), 108), 97), 116), 105), 111), 110), 95), 114), 101), 113), 117), 101), 115),
        116), 115), 95), 116), 111), 116), 97), 108), 255)
        == 0x835dbd03dbdb7e0du64) by (bit_vector);
}

proof fn lemma_resource_utilization_percent()
    ensures
        descriptor_id("resource_utilization_percent"@) == 0x0f325d18d04bf419u64,
{
    reveal_strlit("resource_utilization_percent");
    let name = "resource_utilization_percent"@;
    let bytes = vstd::utf8::encode_utf8(name);
    assert(vstd::utf8::is_ascii_chars(name));
    vstd::utf8::is_ascii_chars_encode_utf8(name);
    assert(bytes =~= seq![
        114u8, 101, 115, 111, 117, 114, 99, 101, 95, 117, 116, 105, 108, 105, 122, 97, 116, 105,
        111, 110, 95, 112, 101, 114, 99, 101, 110, 116
    ]);
    lemma_hash_by_steps(bytes);
    assert(bytes.take(28) == bytes);
    assert(
        fnv_step(fnv_step(fnv_step(fnv_step(fnv_step(fnv_step(fnv_step(fnv_step(fnv_step(fnv_step(
        fnv_step(fnv_step(fnv_step(fnv_step(fnv_step(fnv_step(fnv_step(fnv_step(fnv_step(fnv_step(
        fnv_step(fnv_step(fnv_step(fnv_step(fnv_step(fnv_step(fnv_step(fnv_step(fnv_step(
        0xcbf2_9ce4_8422_2325u64, 114), 101), 115), 111), 117), 114), 99), 101), 95), 117), 116),
        105), 108), 105), 122), 97), 116), 105), 111), 110), 95), 112), 101), 114), 99), 101),
        110), 116), 255)
        == 0x0f325d18d04bf419u64) by (bit_vector);
}

proof fn lemma_host_cpu_usage_percent()
    ensures
        descriptor_id("host_cpu_usage_percent"@) == 0xfb37bcbdcc3daaedu64,
{
    reveal_strlit("host_cpu_usage_percent");
    let name = "host_cpu_usage_percent"@;
    let bytes = vstd::utf8::encode_utf8(name);
    assert(vstd::utf8::is_ascii_chars(name));
    vstd::utf8::is_ascii_chars_encode_utf8(name);
    assert(bytes =~= seq![
        104u8, 111, 115, 116, 95, 99, 112, 117, 95, 117, 115, 97, 103, 101, 95, 112, 101, 114, 99,
        101, 110, 116
    ]);
    lemma_hash_by_steps(bytes);
    assert(bytes.take(22) == bytes);
    assert(
        fnv_step(fnv_step(fnv_step(fnv_step(fnv_step(fnv_step(fnv_step(fnv_step(fnv_step(fnv_step(
        fnv_step(fnv_step(fnv_step(fnv_step(fnv_step(fnv_step(fnv_step(fnv_step(fnv_step(fnv_step(
        fnv_step(fnv_step(fnv_step(0xcbf2_9ce4_8422_2325u64, 104), 111), 115), 116), 95), 99),
        112), 117), 95), 117), 115), 97), 103), 101), 95), 112), 101), 114), 99), 101), 110), 116),
        255)
        == 0xfb37bcbdcc3daaedu64) by (bit_vector);
}

proof fn lemma_host_memory_usage_percent()
    ensures
        descriptor_id("host_memory_usage_percent"@) == 0x1ebd3bdcf8ec6a8eu64,
{
    reveal_strlit("host_memory_usage_percent");
    let name = "host_memory_usage_percent"@;
    let bytes = vstd::utf8::encode_utf8(name);
    assert(vstd::utf8::is_ascii_chars(name));
    vstd::utf8::is_ascii_chars_encode_utf8(name);
    assert(bytes =~= seq![
        104u8, 111, 115, 116, 95, 109, 101, 109, 111, 114, 121, 95, 117, 115, 97, 103, 101, 95, 112,
        101, 114, 99, 101, 110, 116
    ]);
    lemma_hash_by_steps(bytes);
    assert(bytes.take(25) == bytes);
    assert(
        fnv_step(fnv_step(fnv_step(fnv_step(fnv_step(fnv_step(fnv_step(fnv_step(fnv_step(fnv_step(
        fnv_step(fnv_step(fnv_step(fnv_step(fnv_step(fnv_step(fnv_step(fnv_step(fnv_step(fnv_step(
        fnv_step(fnv_step(fnv_step(fnv_step(fnv_step(fnv_step(0xcbf2_9ce4_8422_2325u64, 104), 111),
        115), 116), 95), 109), 101), 109), 111), 114), 121), 95), 117), 115), 97), 103), 101), 95),
        112), 101), 114), 99), 101), 110), 116), 255)
        == 0x1ebd3bdcf8ec6a8eu64) by (bit_vector);
}

proof fn lemma_process_memory_bytes()
    ensures
        descriptor_id("process_memory_bytes"@) == 0x64819f801b4d9561u64,
{
    reveal_strlit("process_memory_bytes");
    let name = "process_memory_bytes"@;
    let bytes = vstd::utf8::encode_utf8(name);
    assert(vstd::utf8::is_ascii_chars(name));
    vstd::utf8::is_ascii_chars_encode_utf8(name);
    assert(bytes =~= seq![
        112u8, 114, 111, 99, 101, 115, 115, 95, 109, 101, 109, 111, 114, 121, 95, 98, 121, 116, 101,
        115
    ]);
    lemma_hash_by_steps(bytes);
    assert(bytes.take(20) == bytes);
    assert(
        fnv_step(fnv_step(fnv_step(fnv_step(fnv_step(fnv_step(fnv_step(fnv_step(fnv_step(fnv_step(
        fnv_step(fnv_step(fnv_step(fnv_step(fnv_step(fnv_step(fnv_step(fnv_step(fnv_step(fnv_step(
        fnv_step(0xcbf2_9ce4_8422_2325u64, 112), 114), 111), 99), 101), 115), 115), 95), 109),
        101), 109), 111), 114), 121), 95), 98), 121), 116), 101), 115), 255)
        == 0x64819f801b4d9561u64) by (bit_vector);
}

proof fn lemma_indexing_latency_seconds()
    ensures
        descriptor_id("indexing_latency_seconds"@) == 0x97103d9e68a8539bu64,
{
    reveal_strlit("indexing_latency_seconds");
    let name = "indexing_latency_seconds"@;
    let bytes = vstd::utf8::encode_utf8(name);
    assert(vstd::utf8::is_ascii_chars(name));
    vstd::utf8::is_ascii_chars_encode_utf8(name);
    assert(bytes =~= seq![
        105u8, 110, 100, 101, 120, 105, 110, 103, 95, 108, 97, 116, 101, 110, 99, 121, 95, 115, 101,
        99, 111, 110, 100, 115
    ]);
    lemma_hash_by_steps(bytes);
    assert(bytes.take(24) == bytes);
    assert(
        fnv_step(fnv_step(fnv_step(fnv_step(fnv_step(fnv_step(fnv_step(fnv_step(fnv_step(fnv_step(
        fnv_step(fnv_step(fnv_step(fnv_step(fnv_step(fnv_step(fnv_step(fnv_step(fnv_step(fnv_step(
        fnv_step(fnv_step(fnv_step(fnv_step(fnv_step(0xcbf2_9ce4_8422_2325u64, 105), 110), 100),
        101), 120), 105), 110), 103), 95), 108), 97), 116), 101), 110), 99), 121), 95), 115), 101),
        99), 111), 110), 100), 115), 255)
        == 0x97103d9e68a8539bu64) by (bit_vector);
}

proof fn lemma_events_processed_total()
    ensures
        descriptor_id("events_processed_total"@) == 0xf43248bbce1eb9cfu64,
{
    reveal_strlit("events_processed_total");
    let name = "events_processed_total"@;
    let bytes = vstd::utf8::encode_utf8(name);
    assert(vstd::utf8::is_ascii_chars(name));
    vstd::utf8::is_ascii_chars_encode_utf8(name);
    assert(bytes =~= seq![
        101u8, 118, 101, 110, 116, 115, 95, 112, 114, 111, 99, 101, 115, 115, 101, 100, 95, 116,
        111, 116, 97, 108
    ]);
    lemma_hash_by_steps(bytes);
    assert(bytes.take(22) == bytes);
    assert(
        fnv_step(fnv_step(fnv_step(fnv_step(fnv_step(fnv_step(fnv_step(fnv_step(fnv_step(fnv_step(
        fnv_step(fnv_step(fnv_step(fnv_step(fnv_step(fnv_step(fnv_step(fnv_step(fnv_step(fnv_step(
        fnv_step(fnv_step(fnv_step(0xcbf2_9ce4_8422_2325u64, 101), 118), 101), 110), 116), 115),
        95), 112), 114), 111), 99), 101), 115), 115), 101), 100), 95), 116), 111), 116), 97), 108),
        255)
        == 0xf43248bbce1eb9cfu64) by (bit_vector);
}

proof fn lemma_indexing_errors_total()
    ensures
        descriptor_id("indexing_errors_total"@) == 0x7a06046b44e82129u64,
{
    reveal_strlit("indexing_errors_total");
    let name = "indexing_errors_total"@;
    let bytes = vstd::utf8::encode_utf8(name);
    assert(vstd::utf8::is_ascii_chars(name));
    vstd::utf8::is_ascii_chars_encode_utf8(name);
    assert(bytes =~= seq![
        105u8, 110, 100, 101, 120, 105, 110, 103, 95, 101, 114, 114, 111, 114, 115, 95, 116, 111,
        116, 97, 108
    ]);
    lemma_hash_by_steps(bytes);
    assert(bytes.take(21) == bytes);
    assert(
        fnv_step(fnv_step(fnv_step(fnv_step(fnv_step(fnv_step(fnv_step(fnv_step(fnv_step(fnv_step(
        fnv_step(fnv_step(fnv_step(fnv_step(fnv_step(fnv_step(fnv_step(fnv_step(fnv_step(fnv_step(
        fnv_step(fnv_step(0xcbf2_9ce4_8422_2325u64, 105), 110), 100), 101), 120), 105), 110), 103),
        95), 101), 114), 114), 111), 114), 115), 95), 116), 111), 116), 97), 108), 255)
        == 0x7a06046b44e82129u64) by (bit_vector);
}

proof fn lemma_job_queue_depth()
    ensures
        descriptor_id("job_queue_depth"@) == 0x1c1a60c5e4d813ebu64,
{
    reveal_strlit("job_queue_depth");
    let name = "job_queue_depth"@;
    let bytes = vstd::utf8::encode_utf8(name);
    assert(vstd::utf8::is_ascii_chars(name));
    vstd::utf8::is_ascii_chars_encode_utf8(name);
    assert(bytes =~= seq![
        106u8, 111, 98, 95, 113, 117, 101, 117, 101, 95, 100, 101, 112, 116, 104
    ]);
    lemma_hash_by_steps(bytes);
    assert(bytes.take(15) == bytes);
    assert(
        fnv_step(fnv_step(fnv_step(fnv_step(fnv_step(fnv_step(fnv_step(fnv_step(fnv_step(fnv_step(
        fnv_step(fnv_step(fnv_step(fnv_step(fnv_step(fnv_step(0xcbf2_9ce4_8422_2325u64, 106), 111),
        98), 95), 113), 117), 101), 117), 101), 95), 100), 101), 112), 116), 104), 255)
        == 0x1c1a60c5e4d813ebu64) by (bit_vector);
}

/// No two names of the metric families that the server exports share an
/// identifier.
pub proof fn lemma_exported_names_have_distinct_ids(names: Seq<Seq<char>>)
    requires
        names == seq![
            "simulation_latency_seconds"@,
            "rpc_error_count_total"@,
            "simulation_requests_total"@,
            "resource_utilization_percent"@,
            "host_cpu_usage_percent"@,
            "host_memory_usage_percent"@,
            "process_memory_bytes"@,
            "indexing_latency_seconds"@,
            "events_processed_total"@,
            "indexing_errors_total"@,
            "job_queue_depth"@,
        ],
    ensures
        forall|i: int, j: int|
            0 <= i < j < names.len() ==> descriptor_id(#[trigger] names[i]) != descriptor_id(
                #[trigger] names[j],
            ),
{
    lemma_simulation_latency_seconds();
    lemma_rpc_error_count_total();
    lemma_simulation_requests_total();
    lemma_resource_utilization_percent();
    lemma_host_cpu_usage_percent();
    lemma_host_memory_usage_percent();
    lemma_process_memory_bytes();
    lemma_indexing_latency_seconds();
    lemma_events_processed_total();
    lemma_indexing_errors_total();
    lemma_job_queue_depth();
}

} // verus!
