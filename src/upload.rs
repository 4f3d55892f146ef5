use vstd::prelude::*;

use crate::command::{
    BufferCopy, BufferImageCopy, Command, CommandBuffer, Extent, ImageLayout, Offset,
    SubresourceLayers, is_copy, is_image_copy, is_update,
};
use crate::memory::{Buffer, Image, MemoryWrite, lemma_read_back, update_cpu_visible_block, written};
use vstd::seq_lib::lemma_multiset_commutative;

verus! {

broadcast use vstd::seq_lib::group_to_multiset_ensures;

/// Why an upload was refused.
#[derive(Clone, Copy, Debug, PartialEq, Eq, Structural)]
pub enum UploadError {
    /// The write would reach past the end of the target.
    OutOfBounds,
    /// The staging buffer could not be created.
    StagingAllocation,
}

impl UploadError {
    /// The context an error is reported with.
    pub fn context(&self) -> (r: &'static str)
        ensures
            *self == UploadError::OutOfBounds ==> r@ == "Buffer upload failed"@,
            *self == UploadError::StagingAllocation ==> r@ == "Failed to create staging buffer"@,
    {
        proof {
            reveal_strlit("Buffer upload failed");
            reveal_strlit("Failed to create staging buffer");
        }
        match self {
            UploadError::OutOfBounds => "Buffer upload failed",
            UploadError::StagingAllocation => "Failed to create staging buffer",
        }
    }
}

/// How a buffer upload proceeds.
#[derive(Clone, Copy, Debug, PartialEq, Eq, Structural)]
pub enum BufferUpload {
    /// The target is host-visible: the caller maps and writes this range.
    Direct(MemoryWrite),
    /// The payload was recorded inline into the current command buffer.
    Recorded,
    /// The payload goes through a host-visible staging buffer of this many
    /// bytes, which the caller creates and hands to `upload_staged`.
    NeedsStaging(u64),
}

/// The pool, of the context's queue family, that upload command buffers are
/// allocated from. Buffers are named by the order of their allocation.
#[derive(Debug)]
pub struct CommandPool {
    allocated: u64,
}

/// Upload context of one queue family: the staging threshold and the command
/// buffers that carry upload commands.
#[derive(Debug)]
pub struct Upload {
    staging_threshold: usize,
    family: usize,
    pool: Option<CommandPool>,
    cbuf: Option<CommandBuffer>,
    free: Vec<CommandBuffer>,
    used: std::collections::VecDeque<(CommandBuffer, u64)>,
}

pub open spec fn ids_of(s: Seq<CommandBuffer>) -> Seq<u64> {
    s.map_values(|c: CommandBuffer| c.spec_id())
}

pub open spec fn tagged_ids(s: Seq<(CommandBuffer, u64)>) -> Seq<u64> {
    s.map_values(|e: (CommandBuffer, u64)| e.0.spec_id())
}

pub open spec fn frames_of(s: Seq<(CommandBuffer, u64)>) -> Seq<u64> {
    s.map_values(|e: (CommandBuffer, u64)| e.1)
}

/// Frames are non-decreasing along `s`.
pub open spec fn ordered(s: Seq<u64>) -> bool {
    forall|i: int, j: int| 0 <= i < j < s.len() ==> s[i] <= s[j]
}

/// Moving the last of the middle names to the front keeps the multiset of names.
proof fn lemma_rotate(a: Seq<u64>, x: u64, u: Seq<u64>)
    ensures
        (seq![x] + a + u).to_multiset() == (Seq::<u64>::empty() + a.push(x) + u).to_multiset(),
{
    assert(Seq::<u64>::empty() + a.push(x) =~= a.push(x));
    assert(seq![x] =~= Seq::<u64>::empty().push(x));
    lemma_multiset_commutative(seq![x] + a, u);
    lemma_multiset_commutative(seq![x], a);
    lemma_multiset_commutative(a.push(x), u);
    assert((seq![x] + a + u).to_multiset() =~= (Seq::<u64>::empty() + a.push(x) + u).to_multiset());
}

/// Putting a new name in front adds it to the multiset of names.
proof fn lemma_prepend(x: u64, a: Seq<u64>, u: Seq<u64>)
    ensures
        (seq![x] + a + u).to_multiset() == (a + u).to_multiset().insert(x),
{
    assert(seq![x] =~= Seq::<u64>::empty().push(x));
    lemma_multiset_commutative(seq![x] + a, u);
    lemma_multiset_commutative(seq![x], a);
    lemma_multiset_commutative(a, u);
    assert((seq![x] + a + u).to_multiset() =~= (a + u).to_multiset().insert(x));
}

impl Upload {
    pub closed spec fn spec_staging_threshold(&self) -> usize {
        self.staging_threshold
    }

    pub closed spec fn spec_family(&self) -> usize {
        self.family
    }

    /// Number of command buffers allocated so far.
    pub closed spec fn spec_allocated(&self) -> u64 {
        match self.pool {
            Some(p) => p.allocated,
            None => 0,
        }
    }

    pub closed spec fn spec_has_pool(&self) -> bool {
        self.pool is Some
    }

    /// The buffer being recorded, if any.
    pub closed spec fn spec_current(&self) -> Option<CommandBuffer> {
        self.cbuf
    }

    /// Buffers ready to record.
    pub closed spec fn spec_free(&self) -> Seq<CommandBuffer> {
        self.free@
    }

    /// Submitted buffers with their frames, oldest first.
    pub closed spec fn spec_in_flight(&self) -> Seq<(CommandBuffer, u64)> {
        self.used@
    }

    /// Commands recorded since the last submission.
    pub open spec fn recorded(&self) -> Seq<Command> {
        match self.spec_current() {
            Some(c) => c.spec_commands(),
            None => Seq::empty(),
        }
    }

    /// The names of all buffers of the pool: current, then free, then in flight.
    pub open spec fn ids(&self) -> Seq<u64> {
        let cur = match self.spec_current() {
            Some(c) => seq![c.spec_id()],
            None => Seq::empty(),
        };
        cur + ids_of(self.spec_free()) + tagged_ids(self.spec_in_flight())
    }

    /// A new upload command can get a buffer without the pool running out of names.
    pub open spec fn spec_can_record(&self) -> bool {
        self.spec_current() is Some || self.spec_free().len() > 0 || self.spec_allocated() < u64::MAX
    }

    /// Each buffer is in exactly one place (current, free or in flight) and was
    /// allocated from the pool; the current one records, free ones are reset,
    /// submitted ones are finished; submitted frames do not decrease.
    pub open spec fn wf(&self) -> bool {
        &&& forall|id: u64| #[trigger] self.ids().to_multiset().count(id) <= 1
        &&& forall|id: u64| #[trigger] self.ids().contains(id) ==> id < self.spec_allocated()
        &&& self.ids().len() > 0 ==> self.spec_has_pool()
        &&& self.spec_current() matches Some(c) ==> c.spec_recording()
        &&& forall|i: int|
            0 <= i < self.spec_free().len() ==> !(#[trigger] self.spec_free()[i]).spec_recording()
                && self.spec_free()[i].spec_commands().len() == 0
        &&& forall|i: int|
            0 <= i < self.spec_in_flight().len() ==> !(
            #[trigger] self.spec_in_flight()[i]).0.spec_recording()
        &&& ordered(frames_of(self.spec_in_flight()))
    }

    /// An empty context; the pool is created with the first upload command.
    pub fn new(staging_threshold: usize, family: usize) -> (u: Upload)
        ensures
            u.wf(),
            u.spec_staging_threshold() == staging_threshold,
            u.spec_family() == family,
            !u.spec_has_pool(),
            u.spec_allocated() == 0,
            u.spec_current() is None,
            u.spec_free().len() == 0,
            u.spec_in_flight().len() == 0,
    {
        let u = Upload {
            staging_threshold,
            family,
            pool: None,
            cbuf: None,
            free: Vec::new(),
            used: std::collections::VecDeque::new(),
        };
        assert(u.ids() =~= Seq::<u64>::empty());
        u
    }

    pub fn staging_threshold(&self) -> (r: usize)
        ensures
            r == self.spec_staging_threshold(),
    {
        self.staging_threshold
    }

    pub fn family(&self) -> (r: usize)
        ensures
            r == self.spec_family(),
    {
        self.family
    }

    /// Whether the next upload command can get a buffer to record into.
    pub fn can_record(&self) -> (r: bool)
        ensures
            r == self.spec_can_record(),
    {
        match (&self.cbuf, &self.pool) {
            (Some(_), _) => true,
            (None, Some(p)) => self.free.len() > 0 || p.allocated < u64::MAX,
            (None, None) => true,
        }
    }

    /// Number of command buffers allocated from the pool so far.
    pub fn allocated(&self) -> (r: u64)
        ensures
            r == self.spec_allocated(),
    {
        match &self.pool {
            Some(p) => p.allocated,
            None => 0,
        }
    }

    /// The buffer being recorded, if any.
    pub fn current(&self) -> (r: Option<&CommandBuffer>)
        ensures
            match r {
                Some(c) => self.spec_current() == Some(*c),
                None => self.spec_current() is None,
            },
    {
        match &self.cbuf {
            Some(c) => Some(c),
            None => None,
        }
    }

    /// Number of buffers ready to record.
    pub fn free_len(&self) -> (r: usize)
        ensures
            r == self.spec_free().len(),
    {
        self.free.len()
    }

    /// The `i`-th buffer ready to record; the ones `clear` recycles are appended.
    pub fn free_buffer(&self, i: usize) -> (r: &CommandBuffer)
        requires
            i < self.spec_free().len(),
        ensures
            *r == self.spec_free()[i as int],
    {
        &self.free[i]
    }

    /// Number of submitted buffers not yet recycled.
    pub fn in_flight_len(&self) -> (r: usize)
        ensures
            r == self.spec_in_flight().len(),
    {
        self.used.len()
    }

    /// The `i`-th submitted buffer, oldest first, with its frame.
    pub fn in_flight(&self, i: usize) -> (r: (&CommandBuffer, u64))
        requires
            i < self.spec_in_flight().len(),
        ensures
            (*r.0, r.1) == self.spec_in_flight()[i as int],
    {
        let e = &self.used[i];
        (&e.0, e.1)
    }

    /// Makes sure a buffer is recording: the current one, else the last free
    /// one, else a new one from the pool, which is created when absent.
    fn get_command_buffer(&mut self)
        requires
            old(self).wf(),
            old(self).spec_can_record(),
        ensures
            final(self).wf(),
            acquires(*old(self), *final(self)),
            final(self).recorded() == old(self).recorded(),
            final(self).spec_in_flight() == old(self).spec_in_flight(),
            final(self).spec_staging_threshold() == old(self).spec_staging_threshold(),
            final(self).spec_family() == old(self).spec_family(),
    {
        if self.cbuf.is_some() {
            assert(self.ids().contains(self.ids()[0]));
            return;
        }
        let ghost old_ids = self.ids();
        let ghost old_free = self.free@;
        let mut cbuf = match self.free.pop() {
            Some(c) => {
                assert(old_free =~= self.free@.push(c));
                assert(old_ids[old_free.len() - 1] == c.spec_id());
                assert(old_ids.contains(c.spec_id()));
                assert(ids_of(self.free@.push(c)) =~= ids_of(self.free@).push(c.spec_id()));
                proof {
                    lemma_rotate(ids_of(self.free@), c.spec_id(), tagged_ids(self.used@));
                }
                assert((seq![c.spec_id()] + ids_of(self.free@) + tagged_ids(self.used@)).to_multiset()
                    == old_ids.to_multiset());
                c
            },
            None => {
                if self.pool.is_none() {
                    self.pool = Some(CommandPool { allocated: 0 });
                }
                let mut pool = self.pool.take().unwrap();
                let id = pool.allocated;
                pool.allocated = pool.allocated + 1;
                self.pool = Some(pool);
                assert(!old_ids.contains(id));
                assert(old_ids =~= tagged_ids(self.used@));
                proof {
                    lemma_prepend(id, Seq::empty(), tagged_ids(self.used@));
                }
                assert(ids_of(self.free@) =~= Seq::<u64>::empty());
                assert(Seq::<u64>::empty() + tagged_ids(self.used@) =~= tagged_ids(self.used@));
                CommandBuffer::new(id)
            },
        };
        cbuf.begin();
        let ghost new_ids = seq![cbuf.spec_id()] + ids_of(self.free@) + tagged_ids(self.used@);
        assert(new_ids.to_multiset() == old_ids.to_multiset() || (new_ids.to_multiset()
            == old_ids.to_multiset().insert(cbuf.spec_id()) && !old_ids.contains(cbuf.spec_id())
            && cbuf.spec_id() < self.spec_allocated()));
        self.cbuf = Some(cbuf);
        assert(self.ids() == new_ids);
        assert forall|id: u64| #[trigger] new_ids.contains(id) implies id < self.spec_allocated() by {
            assert(new_ids.to_multiset().count(id) > 0);
            if id != cbuf.spec_id() {
                assert(old_ids.to_multiset().count(id) > 0);
            }
        }
        assert forall|id: u64| #[trigger] new_ids.to_multiset().count(id) <= 1 by {
            assert(old_ids.to_multiset().count(id) <= 1);
        }
    }

    /// Appends `c` to the buffer being recorded, getting one first if needed.
    fn record(&mut self, c: Command)
        requires
            old(self).wf(),
            old(self).spec_can_record(),
        ensures
            final(self).wf(),
            final(self).recorded() == old(self).recorded().push(c),
            acquires(*old(self), *final(self)),
            final(self).spec_in_flight() == old(self).spec_in_flight(),
            final(self).spec_staging_threshold() == old(self).spec_staging_threshold(),
            final(self).spec_family() == old(self).spec_family(),
    {
        self.get_command_buffer();
        let ghost ids0 = self.ids();
        let mut cbuf = self.cbuf.take().unwrap();
        cbuf.record(c);
        self.cbuf = Some(cbuf);
        assert(self.ids() =~= ids0);
    }

    /// Uploads `data` into `buffer` at `offset`.
    ///
    /// A write past the end of the buffer is refused. A host-visible target is
    /// written directly: the result names the range to map. Otherwise a payload
    /// of at most the staging threshold is recorded inline, and a larger one
    /// needs a staging buffer of its size, with nothing recorded yet.
    pub fn upload_buffer(&mut self, buffer: &Buffer, offset: u64, data: &[u8]) -> (r: Result<
        BufferUpload,
        UploadError,
    >)
        requires
            old(self).wf(),
            !buffer.block.properties.cpu_visible && offset + data@.len() <= buffer.size
                && data@.len() <= old(self).spec_staging_threshold() ==> old(self).spec_can_record(),
            buffer.wf(),
        ensures
            final(self).wf(),
            upload_buffer_step(*old(self), *final(self), *buffer, offset, data@, r),
    {
        let len = data.len() as u64;
        if offset > buffer.size || len > buffer.size - offset {
            return Err(UploadError::OutOfBounds);
        }
        let props = buffer.block.properties;
        if props.cpu_visible {
            Ok(BufferUpload::Direct(update_cpu_visible_block(props.coherent, &buffer.block, offset, data.len())))
        } else if data.len() <= self.staging_threshold {
            let bytes = copy_bytes(data);
            let ghost before = self.recorded();
            self.record(Command::UpdateBuffer { buffer: buffer.id, offset, data: bytes });
            assert(self.recorded().drop_last() =~= before);
            Ok(BufferUpload::Recorded)
        } else {
            Ok(BufferUpload::NeedsStaging(len))
        }
    }

    /// Records the copy of `data`, which goes into `staging` first, to `buffer`
    /// at `offset`. The result names the range of the staging block to write.
    pub fn upload_staged(&mut self, staging: &Buffer, buffer: &Buffer, offset: u64, data: &[u8]) -> (w: MemoryWrite)
        requires
            old(self).wf(),
            old(self).spec_can_record(),
            staging.wf(),
            staging.size == data@.len(),
            staging.block.properties.cpu_visible,
            offset + data@.len() <= buffer.size,
        ensures
            final(self).wf(),
            final(self).recorded().len() == old(self).recorded().len() + 1,
            final(self).recorded().drop_last() == old(self).recorded(),
            is_copy(final(self).recorded().last(), staging.id, buffer.id, offset, data@.len() as u64),
            acquires(*old(self), *final(self)),
            final(self).spec_in_flight() == old(self).spec_in_flight(),
            final(self).spec_staging_threshold() == old(self).spec_staging_threshold(),
            final(self).spec_family() == old(self).spec_family(),
            w.memory == staging.block.memory,
            w.start == staging.block.start,
            w.end == staging.block.start + data@.len(),
            w.invalidate == !staging.block.properties.coherent,
            w.flush == !staging.block.properties.coherent,
    {
        let props = staging.block.properties;
        let w = update_cpu_visible_block(props.coherent, &staging.block, 0, data.len());
        let ghost before = self.recorded();
        self.record(
            Command::CopyBuffer {
                src: staging.id,
                dst: buffer.id,
                copy: BufferCopy { src: 0, dst: offset, size: data.len() as u64 },
            },
        );
        assert(self.recorded().drop_last() =~= before);
        w
    }

    /// Records the copy of `data`, which goes into `staging` first, to a region
    /// of `image` that is in `layout`. The data is tightly packed. The result
    /// names the range of the staging block to write.
    pub fn upload_image(
        &mut self,
        staging: &Buffer,
        image: &Image,
        data: &[u8],
        layout: ImageLayout,
        layers: SubresourceLayers,
        offset: Offset,
        extent: Extent,
    ) -> (w: MemoryWrite)
        requires
            old(self).wf(),
            old(self).spec_can_record(),
            staging.wf(),
            staging.size == data@.len(),
            staging.block.properties.cpu_visible,
        ensures
            final(self).wf(),
            final(self).recorded().len() == old(self).recorded().len() + 1,
            final(self).recorded().drop_last() == old(self).recorded(),
            is_image_copy(final(self).recorded().last(), staging.id, image.id, layout, layers, offset, extent),
            acquires(*old(self), *final(self)),
            final(self).spec_in_flight() == old(self).spec_in_flight(),
            final(self).spec_staging_threshold() == old(self).spec_staging_threshold(),
            final(self).spec_family() == old(self).spec_family(),
            w.memory == staging.block.memory,
            w.start == staging.block.start,
            w.end == staging.block.start + data@.len(),
            w.invalidate == !staging.block.properties.coherent,
            w.flush == !staging.block.properties.coherent,
    {
        let props = staging.block.properties;
        let w = update_cpu_visible_block(props.coherent, &staging.block, 0, data.len());
        let ghost before = self.recorded();
        self.record(
            Command::CopyBufferToImage {
                src: staging.id,
                dst: image.id,
                layout,
                region: BufferImageCopy {
                    buffer_offset: 0,
                    buffer_width: 0,
                    buffer_height: 0,
                    image_layers: layers,
                    image_offset: offset,
                    image_extent: extent,
                },
            },
        );
        assert(self.recorded().drop_last() =~= before);
        w
    }

    /// Finishes the buffer being recorded, if any, and queues it as submitted in
    /// `frame`; it is handed back with the queue family for submission. Frames
    /// must not decrease from one call to the next.
    pub fn uploads(&mut self, frame: u64) -> (r: Option<(&CommandBuffer, usize)>)
        requires
            old(self).wf(),
            old(self).spec_in_flight().len() > 0 ==> old(self).spec_in_flight().last().1 <= frame,
        ensures
            final(self).wf(),
            uploads_step(
                *old(self),
                *final(self),
                frame,
                match r {
                    Some((b, family)) => Some((*b, family)),
                    None => None,
                },
            ),
    {
        let ghost ids0 = self.ids();
        match self.cbuf.take() {
            Some(mut cbuf) => {
                cbuf.finish();
                let ghost prev = self.used@;
                self.used.push_back((cbuf, frame));
                assert(tagged_ids(self.used@) =~= tagged_ids(prev).push(cbuf.spec_id()));
                assert(frames_of(self.used@) =~= frames_of(prev).push(frame));
                assert(self.ids() =~= ids0.subrange(1, ids0.len() as int).push(cbuf.spec_id()));
                assert(ids0 =~= seq![cbuf.spec_id()] + ids0.subrange(1, ids0.len() as int));
                proof {
                    lemma_multiset_commutative(seq![cbuf.spec_id()], ids0.subrange(1, ids0.len() as int));
                    assert(seq![cbuf.spec_id()] =~= Seq::<u64>::empty().push(cbuf.spec_id()));
                    assert(self.ids().to_multiset() =~= ids0.to_multiset());
                }
                assert forall|id: u64| #[trigger] self.ids().contains(id) implies id
                    < self.spec_allocated() by {
                    assert(self.ids().to_multiset().count(id) > 0);
                    assert(ids0.to_multiset().count(id) > 0);
                }
                assert forall|i: int, j: int|
                    0 <= i < j < frames_of(self.used@).len() implies frames_of(self.used@)[i]
                    <= frames_of(self.used@)[j] by {
                    if j == prev.len() && i < prev.len() {
                        assert(frames_of(prev)[i] <= frames_of(prev)[prev.len() - 1]);
                    }
                }
                let last = self.used.len() - 1;
                Some((&self.used[last].0, self.family))
            },
            None => None,
        }
    }

    /// Recycles the submitted buffers whose frame is below `ongoing`, oldest
    /// first: each is reset and becomes free. The first buffer still in flight
    /// has its frame lowered to `ongoing`.
    pub fn clear(&mut self, ongoing: u64)
        requires
            old(self).wf(),
        ensures
            final(self).wf(),
            clear_step(*old(self), *final(self), ongoing),
    {
        let ghost old_free = self.free@;
        let ghost old_used = self.used@;
        let ghost ids0 = self.ids();
        let ghost n = old_used.len() as int;
        let ghost mut k: int = 0;
        while self.used.len() > 0 && self.used[0].1 < ongoing
            invariant
                self.wf(),
                self.ids() == ids0,
                self.cbuf == old(self).cbuf,
                self.pool == old(self).pool,
                self.staging_threshold == old(self).staging_threshold,
                self.family == old(self).family,
                0 <= k <= n,
                self.free@.len() == old_free.len() + k,
                self.free@.subrange(0, old_free.len() as int) == old_free,
                self.used@ == old_used.subrange(k, n),
                forall|i: int| 0 <= i < k ==> (#[trigger] old_used[i]).1 < ongoing,
                forall|i: int|
                    0 <= i < k ==> (#[trigger] self.free@[old_free.len() + i]).spec_id()
                        == old_used[i].0.spec_id(),
                old(self).wf(),
                n == old(self).used@.len(),
                old_used == old(self).used@,
            decreases self.used@.len(),
        {
            let ghost before_free = self.free@;
            let ghost before_used = self.used@;
            let (mut cbuf, _frame) = self.used.pop_front().unwrap();
            cbuf.reset();
            self.free.push(cbuf);
            assert(ids_of(self.free@) =~= ids_of(before_free).push(cbuf.spec_id()));
            assert(tagged_ids(before_used) =~= seq![cbuf.spec_id()] + tagged_ids(self.used@));
            assert(self.ids() =~= ids0);
            assert(frames_of(self.used@) =~= frames_of(before_used).subrange(1, before_used.len() as int));
            proof {
                k = k + 1;
            }
            assert(self.free@.subrange(0, old_free.len() as int) =~= old_free);
            assert(self.used@ =~= old_used.subrange(k, n));
        }
        assert forall|i: int| k <= i < n implies (#[trigger] old_used[i]).1 >= ongoing by {
            assert(frames_of(old_used)[k] <= frames_of(old_used)[i]);
        }
        if self.used.len() > 0 {
            let ghost before_used = self.used@;
            let (cbuf, _frame) = self.used.pop_front().unwrap();
            self.used.push_front((cbuf, ongoing));
            assert(tagged_ids(self.used@) =~= tagged_ids(before_used));
            assert(self.ids() =~= ids0);
            assert(self.used@ =~= before_used.update(0, (cbuf, ongoing)));
            assert(frames_of(self.used@) =~= frames_of(before_used).update(0, ongoing));
            assert forall|i: int, j: int|
                0 <= i < j < frames_of(self.used@).len() implies frames_of(self.used@)[i]
                <= frames_of(self.used@)[j] by {
                assert(frames_of(before_used)[0] <= frames_of(before_used)[j]);
            }
            assert(forall|i: int| 0 <= i < self.used@.len() ==> self.used@[i].0 == old_used[k + i].0);
        }
    }
}

/// An owned copy of `data`.
fn copy_bytes(data: &[u8]) -> (r: Vec<u8>)
    ensures
        r@ == data@,
{
    let mut r: Vec<u8> = Vec::with_capacity(data.len());
    let mut i: usize = 0;
    while i < data.len()
        invariant
            0 <= i <= data@.len(),
            r@ == data@.subrange(0, i as int),
        decreases data@.len() - i,
    {
        r.push(data[i]);
        i = i + 1;
        assert(r@ =~= data@.subrange(0, i as int));
    }
    assert(r@ =~= data@);
    r
}

/// What `upload_buffer(buffer, offset, data)` does to a context `a`, leaving `b`
/// and returning `r`.
pub open spec fn upload_buffer_step(
    a: Upload,
    b: Upload,
    buffer: Buffer,
    offset: u64,
    data: Seq<u8>,
    r: Result<BufferUpload, UploadError>,
) -> bool {
    let fits = offset + data.len() <= buffer.size;
    let props = buffer.block.properties;
    &&& !fits <==> r == Err::<BufferUpload, UploadError>(UploadError::OutOfBounds)
    &&& r is Err ==> b == a
    &&& fits && props.cpu_visible ==> {
        &&& b == a
        &&& r matches Ok(BufferUpload::Direct(w))
        &&& w.memory == buffer.block.memory
        &&& w.start == buffer.block.start + offset
        &&& w.end == buffer.block.start + offset + data.len()
        &&& w.invalidate == !props.coherent
        &&& w.flush == !props.coherent
    }
    &&& fits && !props.cpu_visible && data.len() <= a.spec_staging_threshold() ==> {
        &&& r == Ok::<BufferUpload, UploadError>(BufferUpload::Recorded)
        &&& acquires(a, b)
        &&& b.recorded().len() == a.recorded().len() + 1
        &&& b.recorded().drop_last() == a.recorded()
        &&& is_update(b.recorded().last(), buffer.id, offset, data)
        &&& b.spec_in_flight() == a.spec_in_flight()
        &&& b.spec_staging_threshold() == a.spec_staging_threshold()
        &&& b.spec_family() == a.spec_family()
    }
    &&& fits && !props.cpu_visible && data.len() > a.spec_staging_threshold() ==> {
        &&& b == a
        &&& r == Ok::<BufferUpload, UploadError>(BufferUpload::NeedsStaging(data.len() as u64))
    }
}

/// Uploading into coherent host-visible memory writes the block directly, with
/// no staging buffer and no invalidate or flush, at the block offset `offset`.
/// Once that plan is carried out on the block's bytes (`write_block` yields
/// `written(block_bytes, offset, data)`), the block reads back the payload over
/// the uploaded range, and its other bytes are kept.
pub proof fn lemma_coherent_upload_reads_back(
    a: Upload,
    b: Upload,
    buffer: Buffer,
    offset: u64,
    data: Seq<u8>,
    r: Result<BufferUpload, UploadError>,
    block_bytes: Seq<u8>,
)
    requires
        buffer.wf(),
        buffer.block.properties.cpu_visible,
        buffer.block.properties.coherent,
        upload_buffer_step(a, b, buffer, offset, data, r),
        r is Ok,
        block_bytes.len() == buffer.block.end - buffer.block.start,
    ensures
        r matches Ok(BufferUpload::Direct(w)) && !w.invalidate && !w.flush && w.start
            - buffer.block.start == offset && w.end - w.start == data.len(),
        written(block_bytes, offset as int, data).subrange(offset as int, offset + data.len())
            == data,
        forall|i: int|
            0 <= i < block_bytes.len() && !(offset <= i < offset + data.len()) ==> #[trigger] written(
                block_bytes,
                offset as int,
                data,
            )[i] == block_bytes[i],
{
    lemma_read_back(block_bytes, offset as int, data);
}

/// Two calls of `uploads` with no upload between them: the first hands back a
/// buffer exactly when one was being recorded, the second hands back nothing.
pub proof fn lemma_uploads_twice(
    a: Upload,
    b: Upload,
    c: Upload,
    first: u64,
    second: u64,
    r1: Option<(CommandBuffer, usize)>,
    r2: Option<(CommandBuffer, usize)>,
)
    requires
        uploads_step(a, b, first, r1),
        uploads_step(b, c, second, r2),
    ensures
        r1 is Some <==> a.spec_current() is Some,
        r2 is None,
        c.spec_in_flight() == b.spec_in_flight(),
{
}

/// How an upload command gets the buffer it is recorded into, from `a` to `b`:
/// the current one; else the last free one; else a new one, named by the
/// number allocated before it, from the pool, which exists afterwards and is
/// created only when no buffer existed before.
pub open spec fn acquires(a: Upload, b: Upload) -> bool {
    &&& b.spec_has_pool()
    &&& (a.spec_current() is Some || a.spec_free().len() > 0) ==> a.spec_has_pool()
    &&& b.spec_current() matches Some(c) && match a.spec_current() {
        Some(ac) => c.spec_id() == ac.spec_id() && b.spec_free() == a.spec_free()
            && b.spec_allocated() == a.spec_allocated(),
        None => if a.spec_free().len() > 0 {
            c.spec_id() == a.spec_free().last().spec_id() && b.spec_free()
                == a.spec_free().drop_last() && b.spec_allocated() == a.spec_allocated()
        } else {
            c.spec_id() == a.spec_allocated() && b.spec_free() == a.spec_free()
                && b.spec_allocated() == a.spec_allocated() + 1
        },
    }
}

/// What `uploads(frame)` does to a context `a`, leaving `b` and returning `r`.
pub open spec fn uploads_step(a: Upload, b: Upload, frame: u64, r: Option<(CommandBuffer, usize)>) -> bool {
    &&& b.spec_current() is None
    &&& b.spec_free() == a.spec_free()
    &&& b.spec_staging_threshold() == a.spec_staging_threshold()
    &&& b.spec_family() == a.spec_family()
    &&& b.spec_allocated() == a.spec_allocated()
    &&& b.spec_has_pool() == a.spec_has_pool()
    &&& match a.spec_current() {
        None => r is None && b.spec_in_flight() == a.spec_in_flight(),
        Some(c) => r matches Some((f, family)) && family == a.spec_family() && f.spec_id()
            == c.spec_id() && f.spec_commands() == c.spec_commands() && !f.spec_recording()
            && b.spec_in_flight() == a.spec_in_flight().push((f, frame)),
    }
}

/// What `clear(ongoing)` does to a context `a`, leaving `b`: some number `k` of
/// the oldest submitted buffers, exactly those whose frame is below `ongoing`,
/// are reset and appended to the free list in queue order.
pub open spec fn clear_step(a: Upload, b: Upload, ongoing: u64) -> bool {
    let old_used = a.spec_in_flight();
    let k = b.spec_free().len() - a.spec_free().len();
    &&& 0 <= k <= old_used.len()
    &&& forall|i: int| 0 <= i < k ==> (#[trigger] old_used[i]).1 < ongoing
    &&& forall|i: int| k <= i < old_used.len() ==> (#[trigger] old_used[i]).1 >= ongoing
    &&& b.spec_free().subrange(0, a.spec_free().len() as int) == a.spec_free()
    &&& forall|i: int|
        0 <= i < k ==> (#[trigger] b.spec_free()[a.spec_free().len() + i]).spec_id()
            == old_used[i].0.spec_id()
    &&& b.spec_in_flight().len() == old_used.len() - k
    &&& forall|i: int|
        0 <= i < b.spec_in_flight().len() ==> (#[trigger] b.spec_in_flight()[i]).0 == old_used[k
            + i].0
    &&& forall|i: int|
        1 <= i < b.spec_in_flight().len() ==> (#[trigger] b.spec_in_flight()[i]).1 == old_used[k
            + i].1
    &&& b.spec_in_flight().len() > 0 ==> b.spec_in_flight()[0].1 == ongoing
    &&& b.spec_current() == a.spec_current()
    &&& b.spec_staging_threshold() == a.spec_staging_threshold()
    &&& b.spec_family() == a.spec_family()
    &&& b.spec_allocated() == a.spec_allocated()
    &&& b.spec_has_pool() == a.spec_has_pool()
}

} // verus!
