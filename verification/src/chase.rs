//! Pointer resolution: following a chain of dereferences and signed byte
//! offsets from a starting address to the record of interest.

use vstd::prelude::*;

verus! {

/// The greatest address a hop of the chain may hold.
pub const MAX_ADDRESS: u64 = 0x7FFF_FFFF_FFFF_FFFF;

/// Why a chain could not be followed to its end.
#[derive(Clone, Copy, Debug, PartialEq, Eq, Structural)]
pub enum ResolutionError {
    /// The cursor was the null address before the hop with this index.
    NullPointer(usize),
    /// A value read from memory lay below the load base or above the greatest valid address.
    OutOfRange,
}

/// What the driver of a chase has to do next.
#[derive(Clone, Copy, Debug, PartialEq, Eq, Structural)]
pub enum ChaseAction {
    /// Read the eight bytes stored at this address and hand them to `follow`.
    Read(u64),
    /// Every offset has been applied: this is the address of the record.
    Resolved(u64),
    /// The chain cannot be followed further.
    Failed(ResolutionError),
}

/// A chase in progress: the current address and the number of hops taken.
#[derive(Clone, Copy, Debug, PartialEq, Eq, Structural)]
pub struct Chase {
    pub cursor: u64,
    pub index: usize,
}

/// Whether a value read from memory may be used as a pointer.
pub open spec fn in_range(value: u64, base: u64) -> bool {
    base <= value && value <= MAX_ADDRESS
}

/// Byte-level pointer arithmetic: `value + offset`, wrapping at the ends of the address space.
pub open spec fn displaced(value: u64, offset: i64) -> u64 {
    let sum = value as int + offset as int;
    if sum < 0 {
        (sum + 0x1_0000_0000_0000_0000) as u64
    } else if sum > u64::MAX as int {
        (sum - 0x1_0000_0000_0000_0000) as u64
    } else {
        sum as u64
    }
}

/// The action that a chase in this state asks for, given the length of the chain.
pub open spec fn action_of(chase: Chase, hops: nat) -> ChaseAction {
    if chase.index >= hops {
        ChaseAction::Resolved(chase.cursor)
    } else if chase.cursor == 0 {
        ChaseAction::Failed(ResolutionError::NullPointer(chase.index))
    } else {
        ChaseAction::Read(chase.cursor)
    }
}

/// The state after one hop, given the value read at the cursor.
pub open spec fn followed(chase: Chase, value: u64, offset: i64, base: u64) -> Result<
    Chase,
    ResolutionError,
> {
    if in_range(value, base) {
        Ok(Chase { cursor: displaced(value, offset), index: (chase.index + 1) as usize })
    } else {
        Err(ResolutionError::OutOfRange)
    }
}

/// The outcome of following `offsets` from hop `index` on, with the cursor at
/// `cursor`, in a memory whose eight-byte word at each address is `memory(address)`.
pub open spec fn chase_from(
    memory: spec_fn(u64) -> u64,
    base: u64,
    cursor: u64,
    offsets: Seq<i64>,
    index: nat,
) -> Result<u64, ResolutionError>
    decreases offsets.len() - index,
{
    if index >= offsets.len() {
        Ok(cursor)
    } else if cursor == 0 {
        Err(ResolutionError::NullPointer(index as usize))
    } else if !in_range(memory(cursor), base) {
        Err(ResolutionError::OutOfRange)
    } else {
        chase_from(memory, base, displaced(memory(cursor), offsets[index as int]), offsets, index + 1)
    }
}

/// The outcome of resolving a whole chain from `start`.
pub open spec fn resolution(
    memory: spec_fn(u64) -> u64,
    base: u64,
    start: u64,
    offsets: Seq<i64>,
) -> Result<u64, ResolutionError> {
    chase_from(memory, base, start, offsets, 0)
}

/// Where the cursor stands after `hops` hops when no check is made on the way.
pub open spec fn cursor_after(
    memory: spec_fn(u64) -> u64,
    start: u64,
    offsets: Seq<i64>,
    hops: nat,
) -> u64
    decreases hops,
{
    if hops == 0 || hops > offsets.len() {
        start
    } else {
        displaced(memory(cursor_after(memory, start, offsets, (hops - 1) as nat)), offsets[hops - 1])
    }
}

/// Whether hop `hop` can be taken: the cursor is not null and holds a pointer in range.
pub open spec fn hop_is_valid(
    memory: spec_fn(u64) -> u64,
    base: u64,
    start: u64,
    offsets: Seq<i64>,
    hop: nat,
) -> bool {
    let cursor = cursor_after(memory, start, offsets, hop);
    cursor != 0 && in_range(memory(cursor), base)
}

/// Adds a signed byte offset to an address, wrapping at the ends of the address space.
pub fn displace(value: u64, offset: i64) -> (moved: u64)
    ensures
        moved == displaced(value, offset),
{
    if offset >= 0 {
        value.wrapping_add(offset as u64)
    } else if offset == i64::MIN {
        value.wrapping_sub(0x8000_0000_0000_0000u64)
    } else {
        value.wrapping_sub((-offset) as u64)
    }
}

impl Chase {
    /// A chase that has taken no hop yet.
    pub fn begin(start: u64) -> (chase: Chase)
        ensures
            chase == (Chase { cursor: start, index: 0 }),
    {
        Chase { cursor: start, index: 0 }
    }

    /// What to do next in a chain of `hops` offsets: stop with the address
    /// once every offset is applied, fail on a null cursor, else read at the cursor.
    pub fn action(&self, hops: usize) -> (next: ChaseAction)
        ensures
            next == action_of(*self, hops as nat),
    {
        if self.index >= hops {
            ChaseAction::Resolved(self.cursor)
        } else if self.cursor == 0 {
            ChaseAction::Failed(ResolutionError::NullPointer(self.index))
        } else {
            ChaseAction::Read(self.cursor)
        }
    }

    /// Takes one hop: checks the value read at the cursor against the
    /// address range and, where it is in range, moves the cursor to the value
    /// plus the offset.
    pub fn follow(&self, value: u64, offset: i64, base: u64) -> (next: Result<Chase, ResolutionError>)
        requires
            self.index < usize::MAX,
        ensures
            next == followed(*self, value, offset, base),
    {
        if value < base || value > MAX_ADDRESS {
            Err(ResolutionError::OutOfRange)
        } else {
            Ok(Chase { cursor: displace(value, offset), index: self.index + 1 })
        }
    }
}

/// A memory image for following chains outside a live process: a list of
/// eight-byte words, each stored at an address. A later word stored at an
/// address replaces an earlier one; an address at which nothing was stored
/// reads as zero.
pub struct MemoryImage {
    cells: Vec<(u64, u64)>,
}

/// The word that a list of stored cells holds at `address`.
pub open spec fn stored_word(cells: Seq<(u64, u64)>, address: u64) -> u64
    decreases cells.len(),
{
    if cells.len() == 0 {
        0
    } else if cells.last().0 == address {
        cells.last().1
    } else {
        stored_word(cells.drop_last(), address)
    }
}

impl MemoryImage {
    /// The cells in the order in which they were stored.
    pub closed spec fn cells(&self) -> Seq<(u64, u64)> {
        self.cells@
    }

    /// The word that the image holds at `address`.
    pub open spec fn word_at(&self, address: u64) -> u64 {
        stored_word(self.cells(), address)
    }

    /// The image as a memory: the word at every address.
    pub open spec fn memory(&self) -> spec_fn(u64) -> u64 {
        |address: u64| self.word_at(address)
    }

    /// An image in which every address reads as zero.
    pub fn new() -> (image: MemoryImage)
        ensures
            image.cells() == Seq::<(u64, u64)>::empty(),
            forall|address: u64| image.word_at(address) == 0,
    {
        MemoryImage { cells: Vec::new() }
    }

    /// Stores `value` at `address`; every other address keeps its word.
    pub fn store(&mut self, address: u64, value: u64)
        ensures
            final(self).cells() == old(self).cells().push((address, value)),
            final(self).word_at(address) == value,
            forall|other: u64| other != address ==> final(self).word_at(other) == old(self).word_at(other),
    {
        self.cells.push((address, value));
        proof {
            let after = self.cells@;
            assert(after.drop_last() == old(self).cells@);
            assert(after.last() == (address, value));
        }
    }

    /// Reads the word at `address`.
    pub fn read(&self, address: u64) -> (value: u64)
        ensures
            value == self.word_at(address),
    {
        let mut remaining: usize = self.cells.len();
        proof {
            assert(self.cells@.subrange(0, remaining as int) == self.cells@);
        }
        while remaining > 0
            invariant
                remaining <= self.cells@.len(),
                stored_word(self.cells@, address) == stored_word(
                    self.cells@.subrange(0, remaining as int),
                    address,
                ),
            decreases remaining,
        {
            let cell = self.cells[remaining - 1];
            proof {
                let prefix = self.cells@.subrange(0, remaining as int);
                assert(prefix.last() == self.cells@[remaining - 1]);
                assert(prefix.drop_last() == self.cells@.subrange(0, remaining - 1));
            }
            if cell.0 == address {
                return cell.1;
            }
            remaining = remaining - 1;
        }
        proof {
            assert(self.cells@.subrange(0, 0).len() == 0);
        }
        0
    }
}

/// Follows `offsets` from `start` through the image. At each hop the cursor
/// must not be null and the word read at it must lie between `base` and the
/// greatest valid address; the cursor then moves to that word plus the
/// offset. Nothing is read after a failed check.
pub fn resolve(memory: &MemoryImage, base: u64, start: u64, offsets: &[i64]) -> (outcome: Result<
    u64,
    ResolutionError,
>)
    ensures
        outcome == resolution(memory.memory(), base, start, offsets@),
{
    let mut chase = Chase::begin(start);
    loop
        invariant
            chase.index <= offsets@.len(),
            resolution(memory.memory(), base, start, offsets@) == chase_from(
                memory.memory(),
                base,
                chase.cursor,
                offsets@,
                chase.index as nat,
            ),
        decreases offsets@.len() - chase.index,
    {
        match chase.action(offsets.len()) {
            ChaseAction::Resolved(address) => {
                return Ok(address);
            },
            ChaseAction::Failed(error) => {
                return Err(error);
            },
            ChaseAction::Read(address) => {
                let value = memory.read(address);
                match chase.follow(value, offsets[chase.index], base) {
                    Ok(next) => {
                        chase = next;
                    },
                    Err(error) => {
                        return Err(error);
                    },
                }
            },
        }
    }
}

/// The outcome that the next action and, after a read, the hop taken on the
/// value read lead to: the address or the error where the action is final,
/// the error where the value is out of range, else the outcome of the rest
/// of the chain.
pub open spec fn outcome_by_steps(
    memory: spec_fn(u64) -> u64,
    base: u64,
    chase: Chase,
    offsets: Seq<i64>,
) -> Result<u64, ResolutionError> {
    match action_of(chase, offsets.len()) {
        ChaseAction::Resolved(address) => Ok(address),
        ChaseAction::Failed(error) => Err(error),
        ChaseAction::Read(address) => match followed(
            chase,
            memory(address),
            offsets[chase.index as int],
            base,
        ) {
            Ok(next) => chase_from(memory, base, next.cursor, offsets, next.index as nat),
            Err(error) => Err(error),
        },
    }
}

/// Driving a chase step by step, in any memory, gives the outcome of the
/// chain: from every state, the next action and the hop that follows a read
/// lead to the outcome of the chain from that state.
pub proof fn lemma_steps_give_resolution(
    memory: spec_fn(u64) -> u64,
    base: u64,
    chase: Chase,
    offsets: Seq<i64>,
)
    requires
        offsets.len() <= usize::MAX,
    ensures
        chase_from(memory, base, chase.cursor, offsets, chase.index as nat) == outcome_by_steps(
            memory,
            base,
            chase,
            offsets,
        ),
{
}

/// From hop `index` on, a chase whose remaining hops are all valid ends at
/// the cursor that the unchecked walk reaches.
proof fn lemma_valid_tail(
    memory: spec_fn(u64) -> u64,
    base: u64,
    start: u64,
    offsets: Seq<i64>,
    index: nat,
)
    requires
        index <= offsets.len(),
        forall|hop: nat| index <= hop < offsets.len() ==> hop_is_valid(memory, base, start, offsets, hop),
    ensures
        chase_from(memory, base, cursor_after(memory, start, offsets, index), offsets, index) == Ok::<
            u64,
            ResolutionError,
        >(cursor_after(memory, start, offsets, offsets.len())),
    decreases offsets.len() - index,
{
    if index < offsets.len() {
        assert(hop_is_valid(memory, base, start, offsets, index));
        lemma_valid_tail(memory, base, start, offsets, index + 1);
    }
}

/// From hop `index` on, a chase that reaches hop `bad` over valid hops and
/// reads a word out of range there fails with the out-of-range error.
proof fn lemma_bad_tail(
    memory: spec_fn(u64) -> u64,
    base: u64,
    start: u64,
    offsets: Seq<i64>,
    index: nat,
    bad: nat,
)
    requires
        index <= bad < offsets.len(),
        forall|hop: nat| index <= hop < bad ==> hop_is_valid(memory, base, start, offsets, hop),
        cursor_after(memory, start, offsets, bad) != 0,
        !in_range(memory(cursor_after(memory, start, offsets, bad)), base),
    ensures
        chase_from(memory, base, cursor_after(memory, start, offsets, index), offsets, index) == Err::<
            u64,
            ResolutionError,
        >(ResolutionError::OutOfRange),
    decreases bad - index,
{
    if index < bad {
        assert(hop_is_valid(memory, base, start, offsets, index));
        lemma_bad_tail(memory, base, start, offsets, index + 1, bad);
    }
}

/// A chain in which every hop finds a pointer that is not null and in range
/// resolves to the address that the offsets lead to, hop by hop.
pub proof fn lemma_valid_chain_resolves(
    memory: spec_fn(u64) -> u64,
    base: u64,
    start: u64,
    offsets: Seq<i64>,
)
    requires
        forall|hop: nat| hop < offsets.len() ==> hop_is_valid(memory, base, start, offsets, hop),
    ensures
        resolution(memory, base, start, offsets) == Ok::<u64, ResolutionError>(
            cursor_after(memory, start, offsets, offsets.len()),
        ),
{
    lemma_valid_tail(memory, base, start, offsets, 0);
}

/// A chain that reaches a hop over valid hops and reads there a word outside
/// the range from the load base to the greatest valid address fails with the
/// out-of-range error, whatever the memory holds beyond that hop.
pub proof fn lemma_out_of_range_fails(
    memory: spec_fn(u64) -> u64,
    base: u64,
    start: u64,
    offsets: Seq<i64>,
    bad: nat,
)
    requires
        bad < offsets.len(),
        forall|hop: nat| hop < bad ==> hop_is_valid(memory, base, start, offsets, hop),
        cursor_after(memory, start, offsets, bad) != 0,
        !in_range(memory(cursor_after(memory, start, offsets, bad)), base),
    ensures
        resolution(memory, base, start, offsets) == Err::<u64, ResolutionError>(
            ResolutionError::OutOfRange,
        ),
{
    lemma_bad_tail(memory, base, start, offsets, 0, bad);
}

/// A chain that reaches a hop over valid hops and finds the cursor null
/// there fails with the null-pointer error that names that hop.
pub proof fn lemma_null_cursor_fails(
    memory: spec_fn(u64) -> u64,
    base: u64,
    start: u64,
    offsets: Seq<i64>,
    null_hop: nat,
)
    requires
        null_hop < offsets.len(),
        forall|hop: nat| hop < null_hop ==> hop_is_valid(memory, base, start, offsets, hop),
        cursor_after(memory, start, offsets, null_hop) == 0,
    ensures
        resolution(memory, base, start, offsets) == Err::<u64, ResolutionError>(
            ResolutionError::NullPointer(null_hop as usize),
        ),
{
    lemma_null_tail(memory, base, start, offsets, 0, null_hop);
}

proof fn lemma_null_tail(
    memory: spec_fn(u64) -> u64,
    base: u64,
    start: u64,
    offsets: Seq<i64>,
    index: nat,
    null_hop: nat,
)
    requires
        index <= null_hop < offsets.len(),
        forall|hop: nat| index <= hop < null_hop ==> hop_is_valid(memory, base, start, offsets, hop),
        cursor_after(memory, start, offsets, null_hop) == 0,
    ensures
        chase_from(memory, base, cursor_after(memory, start, offsets, index), offsets, index) == Err::<
            u64,
            ResolutionError,
        >(ResolutionError::NullPointer(null_hop as usize)),
    decreases null_hop - index,
{
    if index < null_hop {
        assert(hop_is_valid(memory, base, start, offsets, index));
        lemma_null_tail(memory, base, start, offsets, index + 1, null_hop);
    }
}

} // verus!
