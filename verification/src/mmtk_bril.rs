use vstd::prelude::*;
use mmtk::util::Address;
use mmtk::AllocationSemantics;
use mmtk::MMTKBuilder;

verus! {

/// `mmtk::util::Address`: an address in memory.
#[verifier::external_type_specification]
#[verifier::external_body]
pub struct ExAddress(Address);

/// `mmtk::MMTKBuilder`: the options an MMTk instance is made with.
#[verifier::external_type_specification]
#[verifier::external_body]
pub struct ExMMTKBuilder(MMTKBuilder);

/// `mmtk::AllocationSemantics`: what kind of object an allocation is for.
#[verifier::external_type_specification]
pub struct ExAllocationSemantics(AllocationSemantics);

/// The number that an address is.
pub uninterp spec fn address_value(a: Address) -> usize;

/// The unit in which MMTk lays out its address space: four megabytes.
pub open spec fn bytes_in_chunk() -> usize {
    0x40_0000
}

/// `Address::as_usize`: the number that the address is.
pub assume_specification[ Address::as_usize ](a: Address) -> (n: usize)
    ensures
        n == address_value(a),
;

/// `mmtk::memory_manager::malloc`: memory of `size` bytes, or the zero address.
/// Nothing is claimed of the address.
pub assume_specification[ mmtk::memory_manager::malloc ](size: usize) -> Address;

/// `mmtk::memory_manager::calloc`: zeroed memory for `num` items of `size`
/// bytes, or the zero address. Nothing is claimed of the address.
pub assume_specification[ mmtk::memory_manager::calloc ](num: usize, size: usize) -> Address;

/// `mmtk::memory_manager::starting_heap_address`: where MMTk's heap starts.
/// MMTk only takes a layout whose heap starts at a multiple of the chunk size
/// and below its end, so the start is such a multiple and at least one chunk
/// lies above it.
pub assume_specification[ mmtk::memory_manager::starting_heap_address ]() -> (start: Address)
    ensures
        address_value(start) % bytes_in_chunk() == 0,
        address_value(start) + bytes_in_chunk() <= usize::MAX,
;

/// `mmtk::memory_manager::last_heap_address`: where MMTk's heap ends. MMTk only
/// takes a layout whose heap ends at a multiple of the chunk size and above
/// its start, so the end is such a multiple and not zero.
pub assume_specification[ mmtk::memory_manager::last_heap_address ]() -> (end: Address)
    ensures
        address_value(end) % bytes_in_chunk() == 0,
        address_value(end) >= bytes_in_chunk(),
;

/// `mmtk::memory_manager::is_mapped_address`: whether MMTk has mapped the
/// memory at `address`. The zero address is never mapped; of any other
/// address nothing is claimed.
pub assume_specification[ mmtk::memory_manager::is_mapped_address ](address: Address) -> (mapped:
    bool)
    ensures
        address_value(address) == 0 ==> !mapped,
;

/// `mmtk::memory_manager::realloc`: memory of `size` bytes that holds what the
/// memory at `addr`, which came from `malloc`, `calloc` or `realloc`, held.
/// Nothing is claimed of the address.
#[verifier::external_body]
fn resize(addr: Address, size: usize) -> Address {
    mmtk::memory_manager::realloc(addr, size)
}

/// `mmtk::memory_manager::free`: gives memory from `malloc`, `calloc` or
/// `realloc` back.
#[verifier::external_body]
fn release(addr: Address) {
    mmtk::memory_manager::free(addr)
}

/// The fixed heap size that the `gc_trigger` option of a builder asks for, if
/// it asks for one.
pub uninterp spec fn fixed_heap_size_of(builder: MMTKBuilder) -> Option<usize>;

/// The value of the `gc_trigger` option of `builder` (`MMTKOption::deref`): the
/// size, if the value is a fixed heap size.
#[verifier::external_body]
fn gc_trigger_fixed(builder: &MMTKBuilder) -> (size: Option<usize>)
    ensures
        size == fixed_heap_size_of(*builder),
{
    match *builder.options.gc_trigger {
        mmtk::util::options::GCTriggerSelector::FixedHeapSize(n) => Some(n),
        mmtk::util::options::GCTriggerSelector::DynamicHeapSize(..) => None,
        mmtk::util::options::GCTriggerSelector::Delegated => None,
    }
}

/// `MMTKOption::set` on the `gc_trigger` option, with a fixed heap size: the
/// option takes the value, and the call returns `true`, exactly if the size
/// is not zero; else the option keeps the value it had.
#[verifier::external_body]
fn set_gc_trigger_fixed(builder: &mut MMTKBuilder, heap_size: usize) -> (accepted: bool)
    ensures
        accepted == (heap_size > 0),
        fixed_heap_size_of(*final(builder)) == (if heap_size > 0 {
            Some(heap_size)
        } else {
            fixed_heap_size_of(*old(builder))
        }),
{
    builder.options.gc_trigger.set(mmtk::util::options::GCTriggerSelector::FixedHeapSize(heap_size))
}

/// Memory that came from MMTk's `malloc`, `calloc` or `realloc` and was not
/// given back. Only such memory can be resized or freed, and only once.
pub struct Allocation {
    addr: Address,
}

impl Allocation {
    /// Where the memory is.
    pub closed spec fn spec_address(&self) -> Address {
        self.addr
    }

    /// Where the memory is; the zero address if MMTk had none to give.
    pub fn address(&self) -> (r: Address)
        ensures
            r == self.spec_address(),
    {
        self.addr
    }

    /// Whether MMTk had no memory to give: whether the address is zero.
    pub fn is_null(&self) -> (b: bool)
        ensures
            b == (address_value(self.spec_address()) == 0),
    {
        self.addr.as_usize() == 0
    }

    /// The handle of the memory at `addr`, which MMTk has just handed out.
    fn holding(addr: Address) -> (r: Self)
        ensures
            r.spec_address() == addr,
    {
        Allocation { addr }
    }
}

/// The fixed heap size that `builder` asks for, if it asks for one.
pub fn fixed_heap_size(builder: &MMTKBuilder) -> (size: Option<usize>)
    ensures
        size == fixed_heap_size_of(*builder),
{
    gc_trigger_fixed(builder)
}

/// Asks for a heap of the fixed size `heap_size`. MMTk takes the size, and the
/// call returns `true`, exactly if the size is not zero; a size of zero
/// leaves what the builder asked for before.
pub fn set_fixed_heap_size(builder: &mut MMTKBuilder, heap_size: usize) -> (accepted: bool)
    ensures
        accepted == (heap_size > 0),
        fixed_heap_size_of(*final(builder)) == (if heap_size > 0 {
            Some(heap_size)
        } else {
            fixed_heap_size_of(*old(builder))
        }),
{
    set_gc_trigger_fixed(builder, heap_size)
}

/// An allocation that is to be made.
pub struct AllocRequest {
    /// How many bytes.
    pub size: usize,
    /// To which alignment.
    pub align: usize,
    /// At which offset from the alignment.
    pub offset: usize,
    /// For which kind of object.
    pub semantics: AllocationSemantics,
}

/// The semantics to use for `bytes` bytes: a plan allocates objects of
/// `max_non_los_default_alloc_bytes` and more as large objects.
pub open spec fn chosen_semantics(
    bytes: usize,
    max_non_los_default_alloc_bytes: usize,
    semantics: AllocationSemantics,
) -> AllocationSemantics {
    if bytes >= max_non_los_default_alloc_bytes {
        AllocationSemantics::Los
    } else {
        semantics
    }
}

/// The allocation to ask MMTk for when `size` bytes are wanted: as asked, but
/// as a large object if the size reaches the plan's limit
/// `max_non_los_default_alloc_bytes`.
pub fn mmtk_alloc(
    max_non_los_default_alloc_bytes: usize,
    size: usize,
    align: usize,
    offset: usize,
    semantics: AllocationSemantics,
) -> (r: AllocRequest)
    ensures
        r.size == size,
        r.align == align,
        r.offset == offset,
        r.semantics == chosen_semantics(size, max_non_los_default_alloc_bytes, semantics),
{
    if size >= max_non_los_default_alloc_bytes {
        AllocRequest { size, align, offset, semantics: AllocationSemantics::Los }
    } else {
        AllocRequest { size, align, offset, semantics }
    }
}

/// The allocation to ask MMTk for when an array of `arr_size` values of
/// `value_size` bytes each is wanted: eight-byte aligned, with default
/// semantics unless it is a large object. `None` if the array has more bytes
/// than can be counted.
pub fn bril_alloc(max_non_los_default_alloc_bytes: usize, value_size: usize, arr_size: usize) -> (r:
    Option<AllocRequest>)
    ensures
        match r {
            Some(req) => value_size * arr_size <= usize::MAX && req.size == value_size * arr_size
                && req.align == 8 && req.offset == 0 && req.semantics == chosen_semantics(
                req.size,
                max_non_los_default_alloc_bytes,
                AllocationSemantics::Default,
            ),
            None => value_size * arr_size > usize::MAX,
        },
{
    match value_size.checked_mul(arr_size) {
        Some(size) => Some(
            mmtk_alloc(max_non_los_default_alloc_bytes, size, 8, 0, AllocationSemantics::Default),
        ),
        None => None,
    }
}

/// The semantics to report to MMTk after an object of `bytes` bytes was
/// allocated: as asked, but large object semantics if the size reaches the
/// plan's limit `max_non_los_default_alloc_bytes`.
pub fn mmtk_post_alloc(
    max_non_los_default_alloc_bytes: usize,
    bytes: usize,
    semantics: AllocationSemantics,
) -> (r: AllocationSemantics)
    ensures
        r == chosen_semantics(bytes, max_non_los_default_alloc_bytes, semantics),
{
    if bytes >= max_non_los_default_alloc_bytes {
        AllocationSemantics::Los
    } else {
        semantics
    }
}

/// Whether an object stays where it is, given whether MMTk may move it.
pub fn mmtk_will_never_move(is_movable: bool) -> (r: bool)
    ensures
        r == !is_movable,
{
    !is_movable
}

/// Whether MMTk has mapped the memory at `address`. The zero address is never
/// mapped; for any other address the answer is MMTk's.
pub fn mmtk_is_mapped_address(address: Address) -> (mapped: bool)
    ensures
        address_value(address) == 0 ==> !mapped,
{
    mmtk::memory_manager::is_mapped_address(address)
}

/// Where MMTk's heap starts: at a multiple of the chunk size, with at least
/// one chunk above it.
pub fn mmtk_starting_heap_address() -> (start: Address)
    ensures
        address_value(start) % bytes_in_chunk() == 0,
        address_value(start) + bytes_in_chunk() <= usize::MAX,
{
    mmtk::memory_manager::starting_heap_address()
}

/// Where MMTk's heap ends: at a multiple of the chunk size that is not zero.
pub fn mmtk_last_heap_address() -> (end: Address)
    ensures
        address_value(end) % bytes_in_chunk() == 0,
        address_value(end) >= bytes_in_chunk(),
{
    mmtk::memory_manager::last_heap_address()
}

/// Memory of `size` bytes from MMTk's `malloc`.
pub fn mmtk_malloc(size: usize) -> Allocation {
    Allocation::holding(mmtk::memory_manager::malloc(size))
}

/// Zeroed memory for `num` items of `size` bytes from MMTk's `calloc`.
pub fn mmtk_calloc(num: usize, size: usize) -> Allocation {
    Allocation::holding(mmtk::memory_manager::calloc(num, size))
}

/// Resizes `memory` to `size` bytes with MMTk's `realloc`.
pub fn mmtk_realloc(memory: Allocation, size: usize) -> Allocation {
    Allocation::holding(resize(memory.addr, size))
}

/// Gives `memory` back with MMTk's `free`.
pub fn mmtk_free(memory: Allocation) {
    release(memory.addr)
}

} // verus!
