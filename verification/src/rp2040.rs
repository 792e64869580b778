//! The machine model: which engine operations set the target up, load a
//! firmware image into it and start a bounded run, and what their results mean.
//! The engine itself is driven by the caller.

use crate::layout::{covered, disjoint, rp2040_regions, AddressSpaceLayout, MapError, MemoryRegion};
use crate::uf2_parser::{BlockView, UF2File, PAYLOAD_CAPACITY};
use vstd::prelude::*;
use vstd::slice::slice_to_vec;

verus! {

/// Why an image could not be loaded.
#[derive(Clone, Copy, Debug, PartialEq, Eq, Structural)]
pub enum LoadError {
    /// The payload of the record at place `index` does not lie within one
    /// mapped region, or the record declares more bytes than its buffer has.
    OutOfBounds { index: usize, address: u64 },
    /// The engine refused the write for the record at place `index`.
    WriteFault { index: usize, address: u64 },
}

/// How a run ended other than at its stop address.
#[derive(Clone, Copy, Debug, PartialEq, Eq, Structural)]
pub enum RunError {
    /// The engine refused the request at place `step`, before the run began.
    SetupFailure { step: usize },
    /// The time allowed for the run was used up.
    Timeout,
    /// The run executed as many instructions as it was allowed.
    InstructionLimitExceeded,
    /// The engine gave the run up with an error of its own.
    Fault,
}

/// One write to the memory of the engine.
#[derive(Debug)]
pub struct FlashWrite {
    /// The place in the image of the record that the bytes come from.
    pub index: usize,
    /// Where the first byte goes.
    pub address: u64,
    /// The bytes.
    pub data: Vec<u8>,
}

/// The writes that load an image, in order, and the refusal that ends them.
#[derive(Debug)]
pub struct LoadPlan {
    /// One write for each record before the first that cannot be loaded.
    pub writes: Vec<FlashWrite>,
    /// Why the record after those is not loaded; `None` where every record is.
    pub refused: Option<LoadError>,
}

/// The bounds and addresses of a run.
#[derive(Clone, Copy, Debug, PartialEq, Eq, Structural)]
pub struct RunConfig {
    /// Where the run begins. Bit 0 selects Thumb encoding and is the caller's to set.
    pub entry_address: u64,
    /// Where the run ends of its own accord.
    pub stop_address: u64,
    /// First address of the range whose instructions are traced.
    pub trace_begin: u64,
    /// Last address of that range.
    pub trace_end: u64,
    /// The stack pointer at the start of the run.
    pub initial_sp: u64,
    /// Microseconds allowed; with none allowed nothing is run.
    pub timeout: u64,
    /// Instructions allowed; zero sets no limit.
    pub max_instructions: usize,
}

/// One operation asked of the engine for a run.
#[derive(Clone, Copy, Debug, PartialEq, Eq, Structural)]
pub enum EngineRequest {
    /// Register the hook called at each instruction from `begin` to `end`.
    HookCode { begin: u64, end: u64 },
    /// Register the hook called at each memory access from `begin` to `end`.
    HookMemory { begin: u64, end: u64 },
    /// Register the hook called at each instruction that does not decode.
    HookInvalidInstruction,
    /// Set the stack pointer.
    WriteStackPointer { value: u64 },
    /// Run from `begin` until `until`, `timeout` microseconds or `count` instructions.
    Start { begin: u64, until: u64, timeout: u64, count: usize },
}

/// Requests before the start request of a run.
pub const SETUP_REQUESTS: usize = 4;

/// Whether the declared payload of `record` fits its buffer and lies within
/// one of `regions`.
pub open spec fn loadable(regions: Seq<MemoryRegion>, record: BlockView) -> bool {
    &&& record.payload_size <= PAYLOAD_CAPACITY
    &&& covered(regions, record.target_addr as int, record.payload_size as int)
}

/// Whether `plan` loads `records` into `regions`: one write per record, in
/// stream order, of the declared payload to the target address, up to the
/// first record that is not loadable, which is refused.
pub open spec fn plans_load(
    regions: Seq<MemoryRegion>,
    records: Seq<BlockView>,
    plan: LoadPlan,
) -> bool {
    let k = plan.writes@.len() as int;
    &&& k <= records.len()
    &&& forall|i: int|
        0 <= i < k ==> {
            &&& loadable(regions, #[trigger] records[i])
            &&& plan.writes@[i].index == i
            &&& plan.writes@[i].address == records[i].target_addr
            &&& plan.writes@[i].data@ == records[i].payload()
        }
    &&& k == records.len() ==> plan.refused is None
    &&& k < records.len() ==> {
        &&& !loadable(regions, records[k])
        &&& plan.refused matches Some(LoadError::OutOfBounds { index, address })
        &&& index == k
        &&& address == records[k].target_addr
    }
}

/// What a load comes to, once the engine has been given the writes of `plan`
/// in order up to the first it refused, at place `failed_at`, or all of them.
/// A refusal reported for a write that the plan does not hold counts for nothing.
pub open spec fn load_outcome(plan: LoadPlan, failed_at: Option<usize>) -> Result<(), LoadError> {
    if failed_at is Some && failed_at->Some_0 < plan.writes@.len() {
        let write = plan.writes@[failed_at->Some_0 as int];
        Err(LoadError::WriteFault { index: write.index, address: write.address })
    } else if plan.refused is Some {
        Err(plan.refused->Some_0)
    } else {
        Ok(())
    }
}

/// The requests of a run, in the order in which the engine gets them. With no
/// time allowed there is none: nothing is registered and nothing is run.
pub open spec fn run_requests(config: RunConfig) -> Seq<EngineRequest> {
    if config.timeout == 0 {
        Seq::empty()
    } else {
        seq![
            EngineRequest::HookCode { begin: config.trace_begin, end: config.trace_end },
            EngineRequest::HookMemory { begin: 0, end: u64::MAX },
            EngineRequest::HookInvalidInstruction,
            EngineRequest::WriteStackPointer { value: config.initial_sp },
            EngineRequest::Start {
                begin: config.entry_address,
                until: config.stop_address,
                timeout: config.timeout,
                count: config.max_instructions,
            },
        ]
    }
}

/// What a run comes to. `failed_at` is the place of the request that the
/// engine refused, if it refused one; `pc` is the program counter and `elapsed`
/// the microseconds run once the engine has returned from the start request.
pub open spec fn run_outcome(
    config: RunConfig,
    failed_at: Option<usize>,
    pc: u64,
    elapsed: u64,
) -> Result<(), RunError> {
    if config.timeout == 0 {
        Err(RunError::Timeout)
    } else if failed_at is Some && failed_at->Some_0 < SETUP_REQUESTS {
        Err(RunError::SetupFailure { step: failed_at->Some_0 })
    } else if failed_at is Some && failed_at->Some_0 == SETUP_REQUESTS {
        Err(RunError::Fault)
    } else if pc == config.stop_address {
        Ok(())
    } else if elapsed >= config.timeout {
        Err(RunError::Timeout)
    } else if config.max_instructions > 0 {
        Err(RunError::InstructionLimitExceeded)
    } else {
        Ok(())
    }
}

/// The model of one RP2040: its address map, every region of which the
/// engine behind it has mapped.
#[derive(Debug)]
pub struct RP2040 {
    layout: AddressSpaceLayout,
}

impl RP2040 {
    /// The regions of the machine, in the order in which they are mapped.
    pub closed spec fn view(&self) -> Seq<MemoryRegion> {
        self.layout@
    }

    /// The machine with the address map of the RP2040.
    pub fn new() -> (machine: Self)
        ensures
            machine@ == rp2040_regions(),
            disjoint(machine@),
    {
        let layout = AddressSpaceLayout::rp2040();
        let _ = layout.regions();
        RP2040 { layout }
    }

    /// The machine with the given address map.
    pub fn with_layout(layout: AddressSpaceLayout) -> (machine: Self)
        ensures
            machine@ == layout@,
            disjoint(machine@),
    {
        let _ = layout.regions();
        RP2040 { layout }
    }

    /// The address map.
    pub fn layout(&self) -> (layout: &AddressSpaceLayout)
        ensures
            layout@ == self@,
    {
        &self.layout
    }

    /// What setting the machine up comes to, once the engine has been asked
    /// to map the regions in table order up to the first it refused, at place
    /// `failed_at`, or all of them. A refusal reported for a region that the
    /// map does not hold counts for nothing.
    pub fn mapping_outcome(&self, failed_at: Option<usize>) -> (r: Result<(), MapError>)
        ensures
            r == if failed_at is Some && failed_at->Some_0 < self@.len() {
                Err::<(), MapError>(
                    MapError::MapFailure {
                        index: failed_at->Some_0,
                        base: self@[failed_at->Some_0 as int].base,
                    },
                )
            } else {
                Ok(())
            },
    {
        let regions = self.layout.regions();
        match failed_at {
            Some(index) => {
                if index < regions.len() {
                    Err(MapError::MapFailure { index, base: regions[index].base })
                } else {
                    Ok(())
                }
            },
            None => Ok(()),
        }
    }

    /// The writes that load `program`: for each record in stream order, its
    /// declared payload to its target address. The first record whose payload
    /// does not lie within one region, or does not fit its buffer, ends the
    /// plan: it and the records after it get no write.
    pub fn write_flash(&self, program: UF2File) -> (plan: LoadPlan)
        ensures
            plans_load(self@, program@, plan),
    {
        let blocks = program.blocks();
        let n = blocks.len();
        let mut writes: Vec<FlashWrite> = Vec::new();
        let mut i: usize = 0;
        while i < n
            invariant
                n == blocks@.len(),
                program@.len() == n,
                forall|j: int| 0 <= j < n ==> (#[trigger] blocks@[j])@ == program@[j],
                i <= n,
                writes@.len() == i,
                forall|j: int|
                    0 <= j < i ==> {
                        &&& loadable(self@, #[trigger] program@[j])
                        &&& writes@[j].index == j
                        &&& writes@[j].address == program@[j].target_addr
                        &&& writes@[j].data@ == program@[j].payload()
                    },
            decreases n - i,
        {
            let block = &blocks[i];
            let address: u64 = block.target_addr() as u64;
            let size: u64 = block.payload_size() as u64;
            let place = self.layout.covering_region(address, size);
            match block.payload() {
                Some(payload) => {
                    if place.is_none() {
                        return LoadPlan {
                            writes,
                            refused: Some(LoadError::OutOfBounds { index: i, address }),
                        };
                    }
                    writes.push(FlashWrite { index: i, address, data: slice_to_vec(payload) });
                },
                None => {
                    return LoadPlan {
                        writes,
                        refused: Some(LoadError::OutOfBounds { index: i, address }),
                    };
                },
            }
            i = i + 1;
        }
        LoadPlan { writes, refused: None }
    }

    /// The requests of a run with the given bounds, in order: the three hooks,
    /// the stack pointer, then the start. With no time allowed there is none.
    pub fn start_emulation(&self, config: &RunConfig) -> (requests: Vec<EngineRequest>)
        ensures
            requests@ == run_requests(*config),
    {
        if config.timeout == 0 {
            return Vec::new();
        }
        let requests = vec![
            EngineRequest::HookCode { begin: config.trace_begin, end: config.trace_end },
            EngineRequest::HookMemory { begin: 0, end: u64::MAX },
            EngineRequest::HookInvalidInstruction,
            EngineRequest::WriteStackPointer { value: config.initial_sp },
            EngineRequest::Start {
                begin: config.entry_address,
                until: config.stop_address,
                timeout: config.timeout,
                count: config.max_instructions,
            },
        ];
        assert(requests@ =~= run_requests(*config));
        requests
    }

    /// What a run comes to, from what the engine reported of its requests.
    /// `failed_at` is the place of the request that the engine refused, if it
    /// refused one; `pc` and `elapsed` are the program counter and the
    /// microseconds run when the engine returned from the start request.
    pub fn emulation_outcome(
        &self,
        config: &RunConfig,
        failed_at: Option<usize>,
        pc: u64,
        elapsed: u64,
    ) -> (r: Result<(), RunError>)
        ensures
            r == run_outcome(*config, failed_at, pc, elapsed),
    {
        if config.timeout == 0 {
            return Err(RunError::Timeout);
        }
        match failed_at {
            Some(step) => {
                if step < SETUP_REQUESTS {
                    return Err(RunError::SetupFailure { step });
                }
                if step == SETUP_REQUESTS {
                    return Err(RunError::Fault);
                }
            },
            None => {},
        }
        if pc == config.stop_address {
            Ok(())
        } else if elapsed >= config.timeout {
            Err(RunError::Timeout)
        } else if config.max_instructions > 0 {
            Err(RunError::InstructionLimitExceeded)
        } else {
            Ok(())
        }
    }
}

impl LoadPlan {
    /// What the load comes to, once the engine has been given the writes in
    /// order up to the first it refused, at place `failed_at`, or all of them.
    pub fn outcome(&self, failed_at: Option<usize>) -> (r: Result<(), LoadError>)
        ensures
            r == load_outcome(*self, failed_at),
    {
        match failed_at {
            Some(place) => {
                if place < self.writes.len() {
                    let write = &self.writes[place];
                    return Err(LoadError::WriteFault { index: write.index, address: write.address });
                }
            },
            None => {},
        }
        match self.refused {
            Some(e) => Err(e),
            None => Ok(()),
        }
    }
}

/// A record whose payload lies in no region is never written: the plan holds
/// no write for it, and the load fails whatever the engine does. Where every
/// record before it can be loaded and the engine takes their writes, the
/// failure is that record's, out of bounds at its target address.
pub proof fn lemma_uncovered_record_not_written(
    regions: Seq<MemoryRegion>,
    records: Seq<BlockView>,
    plan: LoadPlan,
    k: int,
    failed_at: Option<usize>,
)
    requires
        plans_load(regions, records, plan),
        0 <= k < records.len(),
        !covered(regions, records[k].target_addr as int, records[k].payload_size as int),
    ensures
        forall|i: int| 0 <= i < plan.writes@.len() ==> (#[trigger] plan.writes@[i]).index != k,
        load_outcome(plan, failed_at) is Err,
        (forall|i: int| 0 <= i < k ==> loadable(regions, #[trigger] records[i])) ==> {
            &&& load_outcome(plan, None) matches Err(LoadError::OutOfBounds { index, address })
            &&& index == k
            &&& address == records[k].target_addr
        },
{
    let n = plan.writes@.len() as int;
    if n > k {
        assert(loadable(regions, records[k]));
    }
    assert forall|i: int| 0 <= i < n implies (#[trigger] plan.writes@[i]).index != k by {
        assert(loadable(regions, records[i]));
    }
    if forall|i: int| 0 <= i < k ==> loadable(regions, #[trigger] records[i]) {
        if n < k {
            assert(loadable(regions, records[n]));
        }
    }
}

/// A load succeeds exactly when every record can be loaded and the engine
/// refuses none of the writes.
pub proof fn lemma_load_succeeds_when(
    regions: Seq<MemoryRegion>,
    records: Seq<BlockView>,
    plan: LoadPlan,
    failed_at: Option<usize>,
)
    requires
        plans_load(regions, records, plan),
    ensures
        load_outcome(plan, failed_at) is Ok <==> {
            &&& forall|i: int| 0 <= i < records.len() ==> loadable(regions, #[trigger] records[i])
            &&& !(failed_at is Some && failed_at->Some_0 < plan.writes@.len())
        },
{
    let n = plan.writes@.len() as int;
    if n < records.len() {
        assert(!loadable(regions, records[n]));
    }
}

/// With no time allowed a run asks nothing of the engine, so that no hook is
/// registered and no instruction runs, and it ends as timed out whatever is
/// reported of it.
pub proof fn lemma_no_time_no_run(config: RunConfig, failed_at: Option<usize>, pc: u64, elapsed: u64)
    requires
        config.timeout == 0,
    ensures
        run_requests(config).len() == 0,
        run_outcome(config, failed_at, pc, elapsed) == Err::<(), RunError>(RunError::Timeout),
{
}

/// A run that is given time asks for its hooks and its stack pointer before
/// it asks for the start, and a refusal of any of those is a setup failure.
pub proof fn lemma_setup_precedes_start(
    config: RunConfig,
    failed_at: Option<usize>,
    pc: u64,
    elapsed: u64,
)
    requires
        config.timeout > 0,
    ensures
        run_requests(config).len() == SETUP_REQUESTS + 1,
        run_requests(config)[SETUP_REQUESTS as int] is Start,
        forall|i: int| 0 <= i < SETUP_REQUESTS ==> !(#[trigger] run_requests(config)[i] is Start),
        failed_at is Some && failed_at->Some_0 < SETUP_REQUESTS ==> run_outcome(
            config,
            failed_at,
            pc,
            elapsed,
        ) == Err::<(), RunError>(RunError::SetupFailure { step: failed_at->Some_0 }),
{
}

} // verus!
