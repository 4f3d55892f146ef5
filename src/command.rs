use vstd::prelude::*;

verus! {

/// Layout an image is in while a copy writes to it.
#[derive(Clone, Copy, Debug, PartialEq, Eq, Structural)]
pub enum ImageLayout {
    General,
    ColorAttachmentOptimal,
    DepthStencilAttachmentOptimal,
    DepthStencilReadOnlyOptimal,
    ShaderReadOnlyOptimal,
    TransferSrcOptimal,
    TransferDstOptimal,
    Undefined,
    Preinitialized,
    Present,
}

/// The mip level and array layers of an image that a copy addresses.
#[derive(Clone, Copy, Debug, PartialEq, Eq, Structural)]
pub struct SubresourceLayers {
    /// Aspect bits (color, depth, stencil) as the backend encodes them.
    pub aspects: u8,
    pub level: u8,
    pub layer_start: u16,
    pub layer_end: u16,
}

/// A texel offset into an image.
#[derive(Clone, Copy, Debug, PartialEq, Eq, Structural)]
pub struct Offset {
    pub x: i32,
    pub y: i32,
    pub z: i32,
}

/// The size of an image region in texels.
#[derive(Clone, Copy, Debug, PartialEq, Eq, Structural)]
pub struct Extent {
    pub width: u32,
    pub height: u32,
    pub depth: u32,
}

/// A buffer-to-buffer copy region.
#[derive(Clone, Copy, Debug, PartialEq, Eq, Structural)]
pub struct BufferCopy {
    pub src: u64,
    pub dst: u64,
    pub size: u64,
}

/// A buffer-to-image copy region. A row length or image height of zero means the
/// buffer data is tightly packed.
#[derive(Clone, Copy, Debug, PartialEq, Eq, Structural)]
pub struct BufferImageCopy {
    pub buffer_offset: u64,
    pub buffer_width: u32,
    pub buffer_height: u32,
    pub image_layers: SubresourceLayers,
    pub image_offset: Offset,
    pub image_extent: Extent,
}

/// One transfer command recorded into a command buffer. Buffers and images are
/// named by the handles the caller gave them.
#[derive(Debug)]
pub enum Command {
    /// Writes `data` into `buffer` at `offset`, the bytes carried in the command stream.
    UpdateBuffer { buffer: u64, offset: u64, data: Vec<u8> },
    /// Copies a region from buffer `src` to buffer `dst`.
    CopyBuffer { src: u64, dst: u64, copy: BufferCopy },
    /// Copies a region from buffer `src` to image `dst`, which is in `layout`.
    CopyBufferToImage { src: u64, dst: u64, layout: ImageLayout, region: BufferImageCopy },
}

/// `c` writes exactly `data` into `buffer` at `offset`.
pub open spec fn is_update(c: Command, buffer: u64, offset: u64, data: Seq<u8>) -> bool {
    match c {
        Command::UpdateBuffer { buffer: b, offset: o, data: d } => b == buffer && o == offset
            && d@ == data,
        _ => false,
    }
}

/// `c` copies `size` bytes from the start of buffer `src` to buffer `dst` at `offset`.
pub open spec fn is_copy(c: Command, src: u64, dst: u64, offset: u64, size: u64) -> bool {
    match c {
        Command::CopyBuffer { src: s, dst: d, copy: region } => s == src && d == dst && region
            == (BufferCopy { src: 0, dst: offset, size }),
        _ => false,
    }
}

/// `c` copies tightly packed data from the start of buffer `src` into image `dst`.
pub open spec fn is_image_copy(
    c: Command,
    src: u64,
    dst: u64,
    layout: ImageLayout,
    layers: SubresourceLayers,
    offset: Offset,
    extent: Extent,
) -> bool {
    match c {
        Command::CopyBufferToImage { src: s, dst: d, layout: l, region } => s == src && d == dst
            && l == layout && region == (BufferImageCopy {
            buffer_offset: 0,
            buffer_width: 0,
            buffer_height: 0,
            image_layers: layers,
            image_offset: offset,
            image_extent: extent,
        }),
        _ => false,
    }
}

/// A command buffer of the upload pool, named by `id`, with the commands
/// recorded into it since it was last reset.
#[derive(Debug)]
pub struct CommandBuffer {
    id: u64,
    recording: bool,
    commands: Vec<Command>,
}

impl CommandBuffer {
    pub closed spec fn spec_id(&self) -> u64 {
        self.id
    }

    pub closed spec fn spec_recording(&self) -> bool {
        self.recording
    }

    pub closed spec fn spec_commands(&self) -> Seq<Command> {
        self.commands@
    }

    /// A freshly allocated buffer: empty and not recording.
    pub fn new(id: u64) -> (c: CommandBuffer)
        ensures
            c.spec_id() == id,
            !c.spec_recording(),
            c.spec_commands().len() == 0,
    {
        CommandBuffer { id, recording: false, commands: Vec::new() }
    }

    pub fn id(&self) -> (r: u64)
        ensures
            r == self.spec_id(),
    {
        self.id
    }

    pub fn is_recording(&self) -> (r: bool)
        ensures
            r == self.spec_recording(),
    {
        self.recording
    }

    /// The commands recorded since the last reset, in recording order.
    pub fn commands(&self) -> (r: &Vec<Command>)
        ensures
            r@ == self.spec_commands(),
    {
        &self.commands
    }

    /// Starts recording; the recorded commands are kept.
    pub fn begin(&mut self)
        ensures
            final(self).spec_id() == old(self).spec_id(),
            final(self).spec_recording(),
            final(self).spec_commands() == old(self).spec_commands(),
    {
        self.recording = true;
    }

    /// Ends recording; the buffer is then ready to submit.
    pub fn finish(&mut self)
        ensures
            final(self).spec_id() == old(self).spec_id(),
            !final(self).spec_recording(),
            final(self).spec_commands() == old(self).spec_commands(),
    {
        self.recording = false;
    }

    /// Discards the recorded commands, leaving the buffer ready to record anew.
    pub fn reset(&mut self)
        ensures
            final(self).spec_id() == old(self).spec_id(),
            !final(self).spec_recording(),
            final(self).spec_commands().len() == 0,
    {
        self.recording = false;
        self.commands = Vec::new();
    }

    /// Appends `c` to the recorded commands.
    pub fn record(&mut self, c: Command)
        ensures
            final(self).spec_id() == old(self).spec_id(),
            final(self).spec_recording() == old(self).spec_recording(),
            final(self).spec_commands() == old(self).spec_commands().push(c),
    {
        self.commands.push(c);
    }
}

} // verus!
