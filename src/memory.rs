use vstd::prelude::*;

verus! {

/// Memory properties of a block that matter to an upload.
#[derive(Clone, Copy, Debug, PartialEq, Eq, Structural)]
pub struct Properties {
    pub cpu_visible: bool,
    pub coherent: bool,
}

/// A range of a device memory object, as handed out by the allocator.
#[derive(Clone, Copy, Debug, PartialEq, Eq, Structural)]
pub struct Block {
    /// Handle of the device memory object the block lives in.
    pub memory: u64,
    pub start: u64,
    pub end: u64,
    pub properties: Properties,
}

/// What a host write into a mapped block must do: the absolute range to map,
/// and whether the range is invalidated before and flushed after the copy.
#[derive(Clone, Copy, Debug, PartialEq, Eq, Structural)]
pub struct MemoryWrite {
    pub memory: u64,
    pub start: u64,
    pub end: u64,
    pub invalidate: bool,
    pub flush: bool,
}

impl Block {
    pub open spec fn wf(self) -> bool {
        self.start <= self.end
    }
}

/// Plans the write of `len` bytes at `offset` within `block`.
///
/// The range is `[block.start + offset, block.start + offset + len)`; memory that
/// is not coherent is invalidated before the copy and flushed after it.
pub fn update_cpu_visible_block(coherent: bool, block: &Block, offset: u64, len: usize) -> (w: MemoryWrite)
    requires
        block.wf(),
        block.start + offset + len <= block.end,
    ensures
        w.memory == block.memory,
        w.start == block.start + offset,
        w.end == block.start + offset + len,
        w.invalidate == !coherent,
        w.flush == !coherent,
{
    let start = block.start + offset;
    let end = start + len as u64;
    MemoryWrite { memory: block.memory, start, end, invalidate: !coherent, flush: !coherent }
}

/// A buffer bound to its memory block. `id` is the handle the caller knows it by.
#[derive(Clone, Copy, Debug, PartialEq, Eq, Structural)]
pub struct Buffer {
    pub id: u64,
    pub size: u64,
    pub block: Block,
}

impl Buffer {
    /// The block holds the whole buffer.
    pub open spec fn wf(self) -> bool {
        self.block.wf() && self.block.start + self.size <= self.block.end
    }
}

/// An image, known by its handle; it is only ever written through a copy.
#[derive(Clone, Copy, Debug, PartialEq, Eq, Structural)]
pub struct Image {
    pub id: u64,
}

/// `mem` with the bytes from `at` on replaced by `data`.
pub open spec fn written(mem: Seq<u8>, at: int, data: Seq<u8>) -> Seq<u8> {
    mem.subrange(0, at) + data + mem.subrange(at + data.len(), mem.len() as int)
}

/// Copies `data` into a mapped range of the same length.
pub fn copy_into(mapped: &mut [u8], data: &[u8])
    requires
        old(mapped)@.len() == data@.len(),
    ensures
        final(mapped)@ == data@,
{
    let n = data.len();
    let mut i: usize = 0;
    while i < n
        invariant
            n == data@.len(),
            mapped@.len() == n,
            0 <= i <= n,
            forall|j: int| 0 <= j < i ==> mapped@[j] == data@[j],
        decreases n - i,
    {
        mapped[i] = data[i];
        i = i + 1;
    }
    assert(mapped@ =~= data@);
}

/// Performs the write `w`, planned for `block`, on `image`, the bytes of the
/// whole block.
pub fn write_block(image: &mut [u8], block: &Block, w: &MemoryWrite, data: &[u8])
    requires
        old(image)@.len() == block.end - block.start,
        block.start <= w.start <= w.end <= block.end,
        w.end - w.start == data@.len(),
    ensures
        final(image)@ == written(old(image)@, w.start - block.start, data@),
{
    let ghost before = image@;
    let size = image.len();
    assert(w.start - block.start <= size);
    let at = (w.start - block.start) as usize;
    let n = data.len();
    let mut i: usize = 0;
    while i < n
        invariant
            n == data@.len(),
            at + n <= before.len(),
            before.len() == size,
            at == w.start - block.start,
            image@.len() == before.len(),
            0 <= i <= n,
            forall|j: int| 0 <= j < at ==> image@[j] == before[j],
            forall|j: int| 0 <= j < i ==> image@[at + j] == data@[j],
            forall|j: int| at + i <= j < before.len() ==> image@[j] == before[j],
        decreases n - i,
    {
        image[at + i] = data[i];
        i = i + 1;
    }
    assert(image@ =~= written(before, at as int, data@));
}

/// Reading back the written range of a block gives the payload, and the bytes
/// around it are kept.
pub proof fn lemma_read_back(mem: Seq<u8>, at: int, data: Seq<u8>)
    requires
        0 <= at,
        at + data.len() <= mem.len(),
    ensures
        written(mem, at, data).len() == mem.len(),
        written(mem, at, data).subrange(at, at + data.len()) == data,
        forall|i: int|
            0 <= i < mem.len() && !(at <= i < at + data.len()) ==> #[trigger] written(mem, at, data)[i]
                == mem[i],
{
    assert(written(mem, at, data).subrange(at, at + data.len()) =~= data);
}

} // verus!
