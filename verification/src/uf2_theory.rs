//! What holds between writing records out and reading them back.

use crate::byte_order::{le_bytes, lemma_le_bytes_value};
use crate::uf2_parser::{
    complete, encode, first_failure, leading_records, lemma_stream_step, lemma_verified_by_count,
    parse_record, parse_stream, total_size, verified, word_at, BlockView, CorruptionPolicy,
    ParseError, MAGIC_END, MAGIC_START0, MAGIC_START1, RECORD_SIZE,
};
use vstd::prelude::*;

verus! {

/// The bytes of a run of records, one after the other.
pub open spec fn encode_all(records: Seq<BlockView>) -> Seq<u8>
    decreases records.len(),
{
    if records.len() == 0 {
        Seq::empty()
    } else {
        encode(records[0]) + encode_all(records.skip(1))
    }
}

/// A written record reads back as the same fields, whatever follows it in the
/// stream.
pub proof fn lemma_parse_encode(r: BlockView, rest: Seq<u8>)
    requires
        r.valid(),
    ensures
        encode(r).len() == RECORD_SIZE,
        parse_record(encode(r) + rest) == Ok::<BlockView, ParseError>(r),
        (encode(r) + rest).skip(RECORD_SIZE as int) == rest,
{
    reveal(encode);
    let e = encode(r) + rest;
    lemma_le_bytes_value(MAGIC_START0);
    lemma_le_bytes_value(MAGIC_START1);
    lemma_le_bytes_value(r.flags);
    lemma_le_bytes_value(r.target_addr);
    lemma_le_bytes_value(r.payload_size);
    lemma_le_bytes_value(r.block_num);
    lemma_le_bytes_value(r.num_blocks);
    lemma_le_bytes_value(r.family_id);
    lemma_le_bytes_value(MAGIC_END);
    assert(encode(r).len() == RECORD_SIZE);
    assert(e.subrange(0, 4) =~= le_bytes(MAGIC_START0));
    assert(e.subrange(4, 8) =~= le_bytes(MAGIC_START1));
    assert(e.subrange(8, 12) =~= le_bytes(r.flags));
    assert(e.subrange(12, 16) =~= le_bytes(r.target_addr));
    assert(e.subrange(16, 20) =~= le_bytes(r.payload_size));
    assert(e.subrange(20, 24) =~= le_bytes(r.block_num));
    assert(e.subrange(24, 28) =~= le_bytes(r.num_blocks));
    assert(e.subrange(28, 32) =~= le_bytes(r.family_id));
    assert(e.subrange(32, 508) =~= r.data);
    assert(e.subrange(508, 512) =~= le_bytes(MAGIC_END));
    assert(e.skip(RECORD_SIZE as int) =~= rest);
}

/// A written record at the head of a stream is the first record read, and
/// the reading goes on with what follows it.
pub proof fn lemma_stream_after_record(head: BlockView, after: Seq<u8>)
    requires
        head.valid(),
    ensures
        leading_records(encode(head) + after) == seq![head] + leading_records(after),
        first_failure(encode(head) + after) == first_failure(after),
{
    lemma_parse_encode(head, after);
    lemma_stream_step(encode(head) + after);
}

/// Written records read back one by one, and the reading goes on with what
/// follows them.
pub proof fn lemma_stream_after_records(records: Seq<BlockView>, tail: Seq<u8>)
    requires
        forall|i: int| 0 <= i < records.len() ==> (#[trigger] records[i]).valid(),
    ensures
        leading_records(encode_all(records) + tail) == records + leading_records(tail),
        first_failure(encode_all(records) + tail) == first_failure(tail),
    decreases records.len(),
{
    if records.len() == 0 {
        assert(encode_all(records) + tail =~= tail);
        assert(records + leading_records(tail) =~= leading_records(tail));
    } else {
        let head = records[0];
        let others = records.skip(1);
        let after = encode_all(others) + tail;
        assert(head.valid());
        assert forall|i: int| 0 <= i < others.len() implies (#[trigger] others[i]).valid() by {
            assert(others[i] == records[i + 1]);
        }
        lemma_stream_after_records(others, tail);
        lemma_stream_after_record(head, after);
        assert(encode_all(records) + tail == encode(head) + after) by {
            assert(encode_all(records) == encode(head) + encode_all(others));
            assert((encode(head) + encode_all(others)) + tail =~= encode(head) + (encode_all(
                others,
            ) + tail));
        }
        assert(seq![head] + (others + leading_records(tail)) =~= records + leading_records(tail));
    }
}

/// A stream made of written records, and nothing else, reads back as those
/// records under either policy; with no record it is an empty file.
pub proof fn lemma_parse_stream_of_encoded(records: Seq<BlockView>, policy: CorruptionPolicy)
    requires
        forall|i: int| 0 <= i < records.len() ==> (#[trigger] records[i]).valid(),
    ensures
        parse_stream(encode_all(records), policy) == if records.len() == 0 {
            Err::<Seq<BlockView>, ParseError>(ParseError::EmptyFile)
        } else {
            Ok(records)
        },
{
    let none = Seq::<u8>::empty();
    lemma_stream_after_records(records, none);
    lemma_stream_step(none);
    assert(encode_all(records) + none =~= encode_all(records));
    assert(records + Seq::<BlockView>::empty() =~= records);
}

/// Records numbered from zero in stream order, each giving their number as the
/// block count, make a stream that parses to those records and verifies.
pub proof fn lemma_numbered_stream_verifies(records: Seq<BlockView>, policy: CorruptionPolicy)
    requires
        records.len() > 0,
        forall|i: int|
            0 <= i < records.len() ==> {
                &&& (#[trigger] records[i]).valid()
                &&& records[i].block_num == i
                &&& records[i].num_blocks == records.len()
            },
    ensures
        parse_stream(encode_all(records), policy) == Ok::<Seq<BlockView>, ParseError>(records),
        verified(records),
{
    lemma_parse_stream_of_encoded(records, policy);
    lemma_verified_by_count(records);
}

/// Where the bytes after some written records open with a wrong magic word,
/// a rejecting reader fails with that word, and a reader that keeps the prefix
/// returns the records before it and none after: with no record before it, the
/// file is empty.
pub proof fn lemma_bad_start_magic(records: Seq<BlockView>, tail: Seq<u8>)
    requires
        forall|i: int| 0 <= i < records.len() ==> (#[trigger] records[i]).valid(),
        tail.len() >= 8,
        word_at(tail, 0) != MAGIC_START0 || word_at(tail, 4) != MAGIC_START1,
    ensures
        parse_record(tail) is Err,
        parse_record(tail)->Err_0 is BadMagicStart,
        parse_stream(encode_all(records) + tail, CorruptionPolicy::Reject) == Err::<
            Seq<BlockView>,
            ParseError,
        >(parse_record(tail)->Err_0),
        parse_stream(encode_all(records) + tail, CorruptionPolicy::KeepPrefix) == if records.len()
            == 0 {
            Err::<Seq<BlockView>, ParseError>(ParseError::EmptyFile)
        } else {
            Ok(records)
        },
{
    lemma_stream_after_records(records, tail);
    lemma_stream_step(tail);
    assert(records + Seq::<BlockView>::empty() =~= records);
}

/// The total payload size is made of the declared sizes alone: two files
/// whose records declare the same sizes, place by place, have the same total,
/// whatever their payload buffers and other fields hold.
pub proof fn lemma_total_size_by_declared_sizes(a: Seq<BlockView>, b: Seq<BlockView>)
    requires
        a.len() == b.len(),
        forall|i: int| 0 <= i < a.len() ==> (#[trigger] a[i]).payload_size == b[i].payload_size,
    ensures
        total_size(a) == total_size(b),
    decreases a.len(),
{
    if a.len() > 0 {
        assert(a.last().payload_size == b.last().payload_size);
        assert forall|i: int| 0 <= i < a.drop_last().len() implies (#[trigger] a.drop_last()[i]).payload_size
            == b.drop_last()[i].payload_size by {
            assert(a.drop_last()[i] == a[i]);
        }
        lemma_total_size_by_declared_sizes(a.drop_last(), b.drop_last());
    }
}

/// Two records with one block index make a file that does not verify.
pub proof fn lemma_shared_index_fails(records: Seq<BlockView>, i: int, j: int)
    requires
        0 <= i < j < records.len(),
        records[i].block_num == records[j].block_num,
    ensures
        !complete(records),
        !verified(records),
{
}

} // verus!
