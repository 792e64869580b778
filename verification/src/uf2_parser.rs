//! The UF2 container: fixed-size records, each with a header of eight
//! little-endian words, a payload buffer and a closing magic word.

use crate::byte_order::{le_bytes, le_value, read_u32_le, write_u32_le};
use crate::flags::{only_known, UF2Flags, KNOWN_FLAGS};
use vstd::prelude::*;
use vstd::slice::slice_subrange;

verus! {

/// Bytes in one record.
pub const RECORD_SIZE: usize = 512;

/// Bytes in the payload buffer of a record.
pub const PAYLOAD_CAPACITY: usize = 476;

/// First word of every record.
pub const MAGIC_START0: u32 = 0x0A32_4655;

/// Second word of every record.
pub const MAGIC_START1: u32 = 0x9E5D_5157;

/// Last word of every record.
pub const MAGIC_END: u32 = 0x0AB1_6F30;

/// Why a byte stream is not a container.
#[derive(Clone, Copy, Debug, PartialEq, Eq, Structural)]
pub enum ParseError {
    /// One of the two opening words is not the magic word expected there.
    BadMagicStart { expected: u32, actual: u32 },
    /// The closing word is not the closing magic word.
    BadMagicEnd { expected: u32, actual: u32 },
    /// Fewer bytes are left than a record takes.
    Truncated,
    /// The stream holds no record.
    EmptyFile,
}

/// What to do with a stream in which some record fails to parse.
#[derive(Clone, Copy, Debug, PartialEq, Eq, Structural)]
pub enum CorruptionPolicy {
    /// The failure of any record is the failure of the whole stream.
    Reject,
    /// The records before the first failing one are the file; the rest is ignored.
    KeepPrefix,
}

/// The fields of a record, as mathematical values.
pub struct BlockView {
    pub flags: u32,
    pub target_addr: u32,
    pub payload_size: u32,
    pub block_num: u32,
    pub num_blocks: u32,
    pub family_id: u32,
    pub data: Seq<u8>,
}

impl BlockView {
    /// What holds of every record value: a full payload buffer and defined flags only.
    pub open spec fn valid(self) -> bool {
        &&& self.data.len() == PAYLOAD_CAPACITY
        &&& only_known(self.flags)
    }

    /// The invariants of a record: the declared payload fits the buffer and the
    /// block index lies below the block count.
    pub open spec fn well_formed(self) -> bool {
        &&& self.valid()
        &&& self.payload_size <= PAYLOAD_CAPACITY
        &&& self.block_num < self.num_blocks
    }

    /// The declared part of the payload buffer.
    pub open spec fn payload(self) -> Seq<u8>
        recommends
            self.payload_size <= self.data.len(),
    {
        self.data.take(self.payload_size as int)
    }
}

/// The word stored at offset `at` of `bytes`.
pub open spec fn word_at(bytes: Seq<u8>, at: int) -> int
    recommends
        0 <= at,
        at + 4 <= bytes.len(),
{
    le_value(bytes.subrange(at, at + 4))
}

/// The fields that the first record-size bytes of `bytes` hold.
pub open spec fn decode(bytes: Seq<u8>) -> BlockView
    recommends
        bytes.len() >= RECORD_SIZE,
{
    BlockView {
        flags: (word_at(bytes, 8) as u32) & KNOWN_FLAGS,
        target_addr: word_at(bytes, 12) as u32,
        payload_size: word_at(bytes, 16) as u32,
        block_num: word_at(bytes, 20) as u32,
        num_blocks: word_at(bytes, 24) as u32,
        family_id: word_at(bytes, 28) as u32,
        data: bytes.subrange(32, 508),
    }
}

/// The record at the head of `bytes`, or why there is none. The opening words
/// are judged as soon as eight bytes are there, before the length of the rest.
pub open spec fn parse_record(bytes: Seq<u8>) -> Result<BlockView, ParseError> {
    if bytes.len() < 8 {
        Err(ParseError::Truncated)
    } else if word_at(bytes, 0) != MAGIC_START0 {
        Err(ParseError::BadMagicStart { expected: MAGIC_START0, actual: word_at(bytes, 0) as u32 })
    } else if word_at(bytes, 4) != MAGIC_START1 {
        Err(ParseError::BadMagicStart { expected: MAGIC_START1, actual: word_at(bytes, 4) as u32 })
    } else if bytes.len() < RECORD_SIZE {
        Err(ParseError::Truncated)
    } else if word_at(bytes, 508) != MAGIC_END {
        Err(ParseError::BadMagicEnd { expected: MAGIC_END, actual: word_at(bytes, 508) as u32 })
    } else {
        Ok(decode(bytes))
    }
}

/// The bytes of a record with the given fields.
#[verifier::opaque]
pub open spec fn encode(r: BlockView) -> Seq<u8> {
    le_bytes(MAGIC_START0) + le_bytes(MAGIC_START1) + le_bytes(r.flags) + le_bytes(r.target_addr)
        + le_bytes(r.payload_size) + le_bytes(r.block_num) + le_bytes(r.num_blocks) + le_bytes(
        r.family_id,
    ) + r.data + le_bytes(MAGIC_END)
}

/// One record of a container.
#[derive(Debug)]
pub struct Uf2Block {
    magic_start0: u32,
    magic_start1: u32,
    flags: UF2Flags,
    target_addr: u32,
    payload_size: u32,
    block_num: u32,
    num_blocks: u32,
    family_id: u32,
    data: [u8; 476],
    magic_end: u32,
}

fn read_word(bytes: &[u8], at: usize) -> (n: u32)
    requires
        at + 4 <= bytes@.len(),
    ensures
        n as int == word_at(bytes@, at as int),
{
    let _ = bytes.len();
    read_u32_le(slice_subrange(bytes, at, at + 4))
}

fn push_word(out: &mut Vec<u8>, n: u32)
    ensures
        final(out)@ == old(out)@ + le_bytes(n),
{
    let word = write_u32_le(n);
    out.push(word[0]);
    out.push(word[1]);
    out.push(word[2]);
    out.push(word[3]);
    assert(out@ =~= old(out)@ + le_bytes(n));
}

impl Uf2Block {
    #[verifier::type_invariant]
    spec fn magic_words_hold(self) -> bool {
        &&& self.magic_start0 == MAGIC_START0
        &&& self.magic_start1 == MAGIC_START1
        &&& self.magic_end == MAGIC_END
        &&& only_known(self.flags@)
    }

    /// The fields of the record.
    pub closed spec fn view(&self) -> BlockView {
        BlockView {
            flags: self.flags@,
            target_addr: self.target_addr,
            payload_size: self.payload_size,
            block_num: self.block_num,
            num_blocks: self.num_blocks,
            family_id: self.family_id,
            data: self.data@,
        }
    }

    /// A record with the given fields and the format's magic words.
    pub fn new(
        flags: UF2Flags,
        target_addr: u32,
        payload_size: u32,
        block_num: u32,
        num_blocks: u32,
        family_id: u32,
        data: [u8; 476],
    ) -> (block: Self)
        ensures
            block@ == (BlockView {
                flags: flags@,
                target_addr,
                payload_size,
                block_num,
                num_blocks,
                family_id,
                data: data@,
            }),
            block@.valid(),
    {
        let _ = flags.bits();
        Uf2Block {
            magic_start0: MAGIC_START0,
            magic_start1: MAGIC_START1,
            flags,
            target_addr,
            payload_size,
            block_num,
            num_blocks,
            family_id,
            data,
            magic_end: MAGIC_END,
        }
    }

    /// Reads the record at the head of `bytes`. A record takes the first
    /// `RECORD_SIZE` bytes; what follows them is not looked at.
    pub fn parse_uf2_block(bytes: &[u8]) -> (r: Result<Self, ParseError>)
        ensures
            match parse_record(bytes@) {
                Ok(fields) => r is Ok && r->Ok_0@ == fields && fields.valid(),
                Err(e) => r is Err && r->Err_0 == e,
            },
    {
        if bytes.len() < 8 {
            return Err(ParseError::Truncated);
        }
        let magic_start0 = read_word(bytes, 0);
        if magic_start0 != MAGIC_START0 {
            return Err(ParseError::BadMagicStart { expected: MAGIC_START0, actual: magic_start0 });
        }
        let magic_start1 = read_word(bytes, 4);
        if magic_start1 != MAGIC_START1 {
            return Err(ParseError::BadMagicStart { expected: MAGIC_START1, actual: magic_start1 });
        }
        if bytes.len() < RECORD_SIZE {
            return Err(ParseError::Truncated);
        }
        let flags = UF2Flags::from_bits_truncate(read_word(bytes, 8));
        let target_addr = read_word(bytes, 12);
        let payload_size = read_word(bytes, 16);
        let block_num = read_word(bytes, 20);
        let num_blocks = read_word(bytes, 24);
        let family_id = read_word(bytes, 28);
        let mut data = [0u8; 476];
        let mut i: usize = 0;
        while i < PAYLOAD_CAPACITY
            invariant
                i <= PAYLOAD_CAPACITY,
                bytes@.len() >= RECORD_SIZE,
                forall|j: int| 0 <= j < i ==> data@[j] == bytes@[32 + j],
            decreases PAYLOAD_CAPACITY - i,
        {
            data[i] = bytes[32 + i];
            i = i + 1;
        }
        assert(data@ =~= bytes@.subrange(32, 508));
        let magic_end = read_word(bytes, 508);
        if magic_end != MAGIC_END {
            return Err(ParseError::BadMagicEnd { expected: MAGIC_END, actual: magic_end });
        }
        Ok(
            Uf2Block {
                magic_start0,
                magic_start1,
                flags,
                target_addr,
                payload_size,
                block_num,
                num_blocks,
                family_id,
                data,
                magic_end,
            },
        )
    }

    /// The bytes of the record, as a container stores it.
    pub fn to_bytes(&self) -> (bytes: Vec<u8>)
        ensures
            bytes@ == encode(self@),
            bytes@.len() == RECORD_SIZE,
    {
        proof {
            use_type_invariant(self);
            reveal(encode);
        }
        let mut out: Vec<u8> = Vec::with_capacity(RECORD_SIZE);
        push_word(&mut out, self.magic_start0);
        push_word(&mut out, self.magic_start1);
        push_word(&mut out, self.flags.bits());
        push_word(&mut out, self.target_addr);
        push_word(&mut out, self.payload_size);
        push_word(&mut out, self.block_num);
        push_word(&mut out, self.num_blocks);
        push_word(&mut out, self.family_id);
        let ghost header = out@;
        let mut i: usize = 0;
        while i < PAYLOAD_CAPACITY
            invariant
                i <= PAYLOAD_CAPACITY,
                out@ == header + self.data@.take(i as int),
            decreases PAYLOAD_CAPACITY - i,
        {
            out.push(self.data[i]);
            assert(out@ =~= header + self.data@.take(i + 1));
            i = i + 1;
        }
        assert(self.data@.take(PAYLOAD_CAPACITY as int) =~= self.data@);
        push_word(&mut out, self.magic_end);
        out
    }

    /// The flags of the record.
    pub fn flags(&self) -> (flags: UF2Flags)
        ensures
            flags@ == self@.flags,
    {
        self.flags
    }

    /// The address at which the payload is to be stored.
    pub fn target_addr(&self) -> (addr: u32)
        ensures
            addr == self@.target_addr,
    {
        self.target_addr
    }

    /// The number of payload bytes that the record declares.
    pub fn payload_size(&self) -> (size: u32)
        ensures
            size == self@.payload_size,
    {
        self.payload_size
    }

    /// The index of the record within its file.
    pub fn block_num(&self) -> (index: u32)
        ensures
            index == self@.block_num,
    {
        self.block_num
    }

    /// The number of records that the file is said to have.
    pub fn num_blocks(&self) -> (count: u32)
        ensures
            count == self@.num_blocks,
    {
        self.num_blocks
    }

    /// The family identifier of the record.
    pub fn family_id(&self) -> (id: u32)
        ensures
            id == self@.family_id,
    {
        self.family_id
    }

    /// The whole payload buffer, declared or not.
    pub fn data(&self) -> (data: &[u8; 476])
        ensures
            data@ == self@.data,
            self@.valid(),
    {
        proof {
            use_type_invariant(self);
        }
        &self.data
    }

    /// Whether the record keeps the invariants of the format.
    pub fn is_well_formed(&self) -> (ok: bool)
        ensures
            ok == self@.well_formed(),
    {
        proof {
            use_type_invariant(self);
        }
        self.payload_size <= 476 && self.block_num < self.num_blocks
    }

    /// The declared part of the payload buffer; `None` where the record
    /// declares more bytes than the buffer has.
    pub fn payload(&self) -> (payload: Option<&[u8]>)
        ensures
            self@.payload_size <= PAYLOAD_CAPACITY ==> payload is Some && payload->Some_0@
                == self@.payload(),
            self@.payload_size > PAYLOAD_CAPACITY ==> payload is None,
    {
        if self.payload_size <= 476 {
            let all = self.data.as_slice();
            Some(slice_subrange(all, 0, self.payload_size as usize))
        } else {
            None
        }
    }
}

impl Clone for Uf2Block {
    fn clone(&self) -> (copy: Self)
        ensures
            copy@ == self@,
    {
        proof {
            use_type_invariant(self);
        }
        Uf2Block {
            magic_start0: self.magic_start0,
            magic_start1: self.magic_start1,
            flags: self.flags,
            target_addr: self.target_addr,
            payload_size: self.payload_size,
            block_num: self.block_num,
            num_blocks: self.num_blocks,
            family_id: self.family_id,
            data: self.data,
            magic_end: self.magic_end,
        }
    }
}

/// The records at the head of `bytes`, up to the end of the stream or the
/// first stretch of bytes that is no record.
pub open spec fn leading_records(bytes: Seq<u8>) -> Seq<BlockView>
    decreases bytes.len(),
{
    match parse_record(bytes) {
        Ok(r) => seq![r] + leading_records(bytes.skip(RECORD_SIZE as int)),
        Err(_) => Seq::empty(),
    }
}

/// Why the first stretch of bytes that is no record is none; `None` where the
/// stream ends after a whole record, or is empty.
pub open spec fn first_failure(bytes: Seq<u8>) -> Option<ParseError>
    decreases bytes.len(),
{
    if bytes.len() == 0 {
        None
    } else {
        match parse_record(bytes) {
            Ok(_) => first_failure(bytes.skip(RECORD_SIZE as int)),
            Err(e) => Some(e),
        }
    }
}

/// How the two readings of a stream unfold at its head.
pub proof fn lemma_stream_step(bytes: Seq<u8>)
    ensures
        parse_record(bytes) is Ok ==> {
            &&& bytes.len() >= RECORD_SIZE
            &&& leading_records(bytes) == seq![parse_record(bytes)->Ok_0] + leading_records(
                bytes.skip(RECORD_SIZE as int),
            )
            &&& first_failure(bytes) == first_failure(bytes.skip(RECORD_SIZE as int))
        },
        parse_record(bytes) is Err ==> {
            &&& leading_records(bytes) == Seq::<BlockView>::empty()
            &&& bytes.len() > 0 ==> first_failure(bytes) == Some(parse_record(bytes)->Err_0)
            &&& bytes.len() == 0 ==> first_failure(bytes) is None
        },
{
}

/// The file that `bytes` holds under `policy`, or why it holds none.
pub open spec fn parse_stream(bytes: Seq<u8>, policy: CorruptionPolicy) -> Result<
    Seq<BlockView>,
    ParseError,
> {
    if policy == CorruptionPolicy::Reject && first_failure(bytes) is Some {
        Err(first_failure(bytes)->Some_0)
    } else if leading_records(bytes).len() == 0 {
        Err(ParseError::EmptyFile)
    } else {
        Ok(leading_records(bytes))
    }
}

/// The sum of the payload sizes that the records declare.
pub open spec fn total_size(records: Seq<BlockView>) -> nat
    decreases records.len(),
{
    if records.len() == 0 {
        0
    } else {
        total_size(records.drop_last()) + records.last().payload_size as nat
    }
}

/// Every record stands at the place in the stream that its block index names.
pub open spec fn in_stream_order(records: Seq<BlockView>) -> bool {
    forall|i: int| 0 <= i < records.len() ==> (#[trigger] records[i]).block_num == i
}

/// Some record has block index `k`.
pub open spec fn has_index(records: Seq<BlockView>, k: int) -> bool {
    exists|i: int| 0 <= i < records.len() && (#[trigger] records[i]).block_num == k
}

/// The records agree on one block count, and their block indices are the
/// numbers below that count, each of them once.
pub open spec fn complete(records: Seq<BlockView>) -> bool {
    &&& records.len() > 0
    &&& forall|i: int|
        0 <= i < records.len() ==> (#[trigger] records[i]).num_blocks == records[0].num_blocks
    &&& forall|i: int|
        0 <= i < records.len() ==> (#[trigger] records[i]).block_num < records[0].num_blocks
    &&& forall|i: int, j: int|
        0 <= i < j < records.len() ==> (#[trigger] records[i]).block_num != (
        #[trigger] records[j]).block_num
    &&& forall|k: int| 0 <= k < records[0].num_blocks ==> #[trigger] has_index(records, k)
}

/// The records are one whole file, in order.
pub open spec fn verified(records: Seq<BlockView>) -> bool {
    in_stream_order(records) && complete(records)
}

/// A file in stream order is whole exactly when every record gives the number
/// of records as the block count.
pub proof fn lemma_verified_by_count(records: Seq<BlockView>)
    ensures
        verified(records) <==> {
            &&& records.len() > 0
            &&& in_stream_order(records)
            &&& forall|i: int|
                0 <= i < records.len() ==> (#[trigger] records[i]).num_blocks == records.len()
        },
{
    let n = records.len() as int;
    if verified(records) {
        let count = records[0].num_blocks as int;
        assert(records[n - 1].block_num == n - 1);
        assert(has_index(records, count - 1));
        let i = choose|i: int| 0 <= i < records.len() && (#[trigger] records[i]).block_num == count - 1;
        assert(records[i].block_num == i);
        assert(count == n);
    }
    if n > 0 && in_stream_order(records) && (forall|i: int|
        0 <= i < records.len() ==> (#[trigger] records[i]).num_blocks == records.len()) {
        assert forall|k: int| 0 <= k < records[0].num_blocks implies #[trigger] has_index(
            records,
            k,
        ) by {
            assert(records[k].block_num == k);
        }
    }
}

/// The views of a run of records.
pub open spec fn views(blocks: Seq<Uf2Block>) -> Seq<BlockView> {
    blocks.map_values(|b: Uf2Block| b@)
}

/// A firmware image: the records of a container, in stream order.
#[derive(Debug)]
pub struct UF2File {
    blocks: Vec<Uf2Block>,
}

impl UF2File {
    #[verifier::type_invariant]
    spec fn holds_a_record(self) -> bool {
        self.blocks@.len() > 0
    }

    /// The records of the file, in stream order.
    pub closed spec fn view(&self) -> Seq<BlockView> {
        views(self.blocks@)
    }

    /// Reads a whole container. A stretch of bytes that is no record, a short
    /// tail included, fails the whole stream with the error of that stretch.
    pub fn parse_file(bytes: &[u8]) -> (r: Result<Self, ParseError>)
        ensures
            match parse_stream(bytes@, CorruptionPolicy::Reject) {
                Ok(records) => r is Ok && r->Ok_0@ == records,
                Err(e) => r is Err && r->Err_0 == e,
            },
    {
        Self::parse_file_with(bytes, CorruptionPolicy::Reject)
    }

    /// Reads a container under the given policy for bytes that are no record.
    pub fn parse_file_with(bytes: &[u8], policy: CorruptionPolicy) -> (r: Result<Self, ParseError>)
        ensures
            match parse_stream(bytes@, policy) {
                Ok(records) => r is Ok && r->Ok_0@ == records,
                Err(e) => r is Err && r->Err_0 == e,
            },
    {
        let mut blocks: Vec<Uf2Block> = Vec::new();
        let mut pos: usize = 0;
        proof {
            assert(bytes@.skip(0) =~= bytes@);
            assert(views(blocks@) + leading_records(bytes@) =~= leading_records(bytes@));
        }
        while pos < bytes.len()
            invariant
                pos <= bytes@.len(),
                leading_records(bytes@) == views(blocks@) + leading_records(
                    bytes@.skip(pos as int),
                ),
                first_failure(bytes@) == first_failure(bytes@.skip(pos as int)),
            decreases bytes@.len() - pos,
        {
            let rest = slice_subrange(bytes, pos, bytes.len());
            proof {
                lemma_stream_step(rest@);
            }
            match Uf2Block::parse_uf2_block(rest) {
                Ok(block) => {
                    proof {
                        let tail = leading_records(rest@.skip(RECORD_SIZE as int));
                        assert(rest@.skip(RECORD_SIZE as int) =~= bytes@.skip(pos + RECORD_SIZE));
                        assert(views(blocks@.push(block)) =~= views(blocks@).push(block@));
                        assert(views(blocks@).push(block@) + tail =~= views(blocks@) + (seq![
                            block@,
                        ] + tail));
                    }
                    blocks.push(block);
                    pos = pos + RECORD_SIZE;
                },
                Err(e) => {
                    proof {
                        assert(views(blocks@) + Seq::<BlockView>::empty() =~= views(blocks@));
                    }
                    match policy {
                        CorruptionPolicy::Reject => {
                            return Err(e);
                        },
                        CorruptionPolicy::KeepPrefix => {
                            if blocks.len() == 0 {
                                return Err(ParseError::EmptyFile);
                            }
                            return Ok(UF2File { blocks });
                        },
                    }
                },
            }
        }
        proof {
            assert(bytes@.skip(pos as int).len() == 0);
            assert(views(blocks@) + Seq::<BlockView>::empty() =~= views(blocks@));
        }
        if blocks.len() == 0 {
            return Err(ParseError::EmptyFile);
        }
        Ok(UF2File { blocks })
    }

    /// The number of records.
    pub fn len(&self) -> (n: usize)
        ensures
            n == self@.len(),
            n > 0,
    {
        proof {
            use_type_invariant(self);
        }
        self.blocks.len()
    }

    /// The records, in stream order.
    pub fn blocks(&self) -> (blocks: &Vec<Uf2Block>)
        ensures
            views(blocks@) == self@,
    {
        &self.blocks
    }

    /// The sum of the payload sizes that the records declare. The size of the
    /// payload buffer, which is the same in every record, plays no part.
    pub fn total_payload_size(&self) -> (total: u128)
        ensures
            total == total_size(self@),
    {
        let n = self.blocks.len();
        let mut total: u128 = 0;
        let mut i: usize = 0;
        while i < n
            invariant
                n == self.blocks@.len(),
                i <= n,
                total == total_size(self@.take(i as int)),
                total <= i * 0xFFFF_FFFF,
            decreases n - i,
        {
            let size = self.blocks[i].payload_size();
            assert(self@.take(i + 1).drop_last() =~= self@.take(i as int));
            total = total + size as u128;
            i = i + 1;
        }
        assert(self@.take(n as int) =~= self@);
        total
    }

    /// Whether the records are one whole file in order: each stands at the
    /// place its block index names, all give the same block count, and the
    /// indices are the numbers below that count, each once.
    pub fn verify(&self) -> (ok: bool)
        ensures
            ok == verified(self@),
    {
        let n = self.blocks.len();
        let mut i: usize = 0;
        while i < n
            invariant
                n == self.blocks@.len(),
                i <= n,
                forall|j: int|
                    0 <= j < i ==> (#[trigger] self@[j]).block_num == j && self@[j].num_blocks
                        == n,
            decreases n - i,
        {
            let block = &self.blocks[i];
            if block.block_num() as usize != i || block.num_blocks() as usize != n {
                proof {
                    lemma_verified_by_count(self@);
                    assert(self@[i as int].block_num != i || self@[i as int].num_blocks != n);
                }
                return false;
            }
            i = i + 1;
        }
        proof {
            use_type_invariant(self);
            lemma_verified_by_count(self@);
        }
        true
    }
}

} // verus!
