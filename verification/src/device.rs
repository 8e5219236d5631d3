//! Plain-data model of the device: the buffers that exist, the layouts and
//! pipelines that passes use, and the commands that are recorded.
//!
//! Nothing here touches a GPU. A [`GpuContext`] lists the buffers to create and
//! a [`CommandEncoder`] the work to submit; an executor turns both into calls
//! of a graphics API.

use vstd::prelude::*;

verus! {

/// What a buffer may be used for.
#[derive(Clone, Copy, Debug, PartialEq, Eq, Structural)]
pub struct BufferUsages {
    pub storage: bool,
    pub uniform: bool,
    pub copy_src: bool,
    pub copy_dst: bool,
    pub map_read: bool,
}

impl BufferUsages {
    /// Storage only.
    pub open spec fn of_storage() -> BufferUsages {
        BufferUsages { storage: true, uniform: false, copy_src: false, copy_dst: false, map_read: false }
    }

    /// Uniform that the host may rewrite.
    pub open spec fn of_uniform() -> BufferUsages {
        BufferUsages { storage: false, uniform: true, copy_src: false, copy_dst: true, map_read: false }
    }

    /// Destination of copies that the host maps and reads.
    pub open spec fn of_readback() -> BufferUsages {
        BufferUsages { storage: false, uniform: false, copy_src: false, copy_dst: true, map_read: true }
    }

    /// Destination of copies that the host maps and reads.
    pub fn readback() -> (u: BufferUsages)
        ensures
            u == BufferUsages::of_readback(),
    {
        BufferUsages { storage: false, uniform: false, copy_src: false, copy_dst: true, map_read: true }
    }

    /// Storage only.
    pub fn storage() -> (u: BufferUsages)
        ensures
            u == BufferUsages::of_storage(),
    {
        BufferUsages { storage: true, uniform: false, copy_src: false, copy_dst: false, map_read: false }
    }

    /// Uniform that the host may rewrite.
    pub fn uniform() -> (u: BufferUsages)
        ensures
            u == BufferUsages::of_uniform(),
    {
        BufferUsages { storage: false, uniform: true, copy_src: false, copy_dst: true, map_read: false }
    }

    /// The same usages, and a source of copies.
    pub open spec fn and_copy_src(self) -> BufferUsages {
        BufferUsages { copy_src: true, ..self }
    }

    /// The same usages, and a destination of copies.
    pub open spec fn and_copy_dst(self) -> BufferUsages {
        BufferUsages { copy_dst: true, ..self }
    }

    /// The same usages, and a source of copies.
    pub fn with_copy_src(self) -> (u: BufferUsages)
        ensures
            u == self.and_copy_src(),
    {
        BufferUsages {
            storage: self.storage,
            uniform: self.uniform,
            copy_src: true,
            copy_dst: self.copy_dst,
            map_read: self.map_read,
        }
    }

    /// The same usages, and a destination of copies.
    pub fn with_copy_dst(self) -> (u: BufferUsages)
        ensures
            u == self.and_copy_dst(),
    {
        BufferUsages {
            storage: self.storage,
            uniform: self.uniform,
            copy_src: self.copy_src,
            copy_dst: true,
            map_read: self.map_read,
        }
    }
}

/// Handle of a buffer: its place in the list of the context that created it.
#[derive(Clone, Copy, Debug, PartialEq, Eq, Structural)]
pub struct Buffer {
    pub id: usize,
}

/// A buffer to create. `contents` are the bytes that it starts with; without
/// them it starts zeroed.
#[derive(Debug)]
pub struct BufferDescriptor {
    pub size: u64,
    pub usage: BufferUsages,
    pub contents: Option<Vec<u8>>,
}

/// What a [`BufferDescriptor`] asks for.
#[verifier::ext_equal]
pub struct BufferSpec {
    pub size: int,
    pub usage: BufferUsages,
    pub contents: Option<Seq<u8>>,
}

impl View for BufferDescriptor {
    type V = BufferSpec;

    open spec fn view(&self) -> BufferSpec {
        BufferSpec {
            size: self.size as int,
            usage: self.usage,
            contents: match self.contents {
                Some(bytes) => Some(bytes@),
                None => None,
            },
        }
    }
}

/// A zeroed buffer of `size` bytes.
pub open spec fn zeroed(size: int, usage: BufferUsages) -> BufferSpec {
    BufferSpec { size, usage, contents: None }
}

/// A buffer that starts with `bytes` and is just as large.
pub open spec fn filled(bytes: Seq<u8>, usage: BufferUsages) -> BufferSpec {
    BufferSpec { size: bytes.len() as int, usage, contents: Some(bytes) }
}

/// Bytes to write into an existing buffer, from its start.
#[derive(Debug)]
pub struct BufferWrite {
    pub buffer: Buffer,
    pub bytes: Vec<u8>,
}

impl View for BufferWrite {
    type V = (Buffer, Seq<u8>);

    open spec fn view(&self) -> (Buffer, Seq<u8>) {
        (self.buffer, self.bytes@)
    }
}

/// The buffers that have been asked for, in order, and the host writes queued
/// for them.
#[derive(Debug)]
pub struct GpuContext {
    pub buffers: Vec<BufferDescriptor>,
    pub writes: Vec<BufferWrite>,
}

impl View for GpuContext {
    type V = Seq<BufferSpec>;

    open spec fn view(&self) -> Seq<BufferSpec> {
        self.buffers@.map_values(|d: BufferDescriptor| d@)
    }
}

impl GpuContext {
    /// The queued host writes: buffer and bytes, in order.
    pub open spec fn queue(self) -> Seq<(Buffer, Seq<u8>)> {
        self.writes@.map_values(|w: BufferWrite| w@)
    }

    /// A context without buffers.
    pub fn new() -> (ctx: GpuContext)
        ensures
            ctx@ == Seq::<BufferSpec>::empty(),
            ctx.queue() == Seq::<(Buffer, Seq<u8>)>::empty(),
    {
        let ctx = GpuContext { buffers: Vec::new(), writes: Vec::new() };
        assert(ctx@ =~= Seq::<BufferSpec>::empty());
        assert(ctx.queue() =~= Seq::<(Buffer, Seq<u8>)>::empty());
        ctx
    }

    /// Asks for a zeroed buffer.
    pub fn create_buffer(&mut self, size: u64, usage: BufferUsages) -> (buffer: Buffer)
        ensures
            final(self)@ == old(self)@.push(zeroed(size as int, usage)),
            final(self).queue() == old(self).queue(),
            buffer.id == old(self)@.len(),
    {
        let id: usize = self.buffers.len();
        self.buffers.push(BufferDescriptor { size, usage, contents: None });
        assert(self@ =~= old(self)@.push(zeroed(size as int, usage)));
        Buffer { id }
    }

    /// Asks for a buffer that starts with `bytes`.
    pub fn create_buffer_init(&mut self, bytes: Vec<u8>, usage: BufferUsages) -> (buffer: Buffer)
        ensures
            final(self)@ == old(self)@.push(filled(bytes@, usage)),
            final(self).queue() == old(self).queue(),
            buffer.id == old(self)@.len(),
    {
        let id: usize = self.buffers.len();
        let size: u64 = bytes.len() as u64;
        self.buffers.push(BufferDescriptor { size, usage, contents: Some(bytes) });
        assert(self@ =~= old(self)@.push(filled(bytes@, usage)));
        Buffer { id }
    }

    /// Forgets the buffers from `mark` on. What was submitted with them keeps
    /// them alive as long as it needs them; their places are given out again.
    pub fn release(&mut self, mark: usize)
        ensures
            final(self)@ == old(self)@.take(
                if mark <= old(self)@.len() {
                    mark as int
                } else {
                    old(self)@.len() as int
                },
            ),
            final(self).queue() == old(self).queue(),
    {
        if mark < self.buffers.len() {
            self.buffers.truncate(mark);
            assert(self@ =~= old(self)@.take(mark as int));
        } else {
            assert(self@ =~= old(self)@.take(old(self)@.len() as int));
        }
    }

    /// Hands out the queued writes; the queue is then empty.
    pub fn take_writes(&mut self) -> (writes: Vec<BufferWrite>)
        ensures
            writes@.map_values(|w: BufferWrite| w@) == old(self).queue(),
            final(self)@ == old(self)@,
            final(self).queue() == Seq::<(Buffer, Seq<u8>)>::empty(),
    {
        let mut writes: Vec<BufferWrite> = Vec::new();
        std::mem::swap(&mut writes, &mut self.writes);
        assert(self.queue() =~= Seq::<(Buffer, Seq<u8>)>::empty());
        writes
    }

    /// Queues a write of `bytes` to the start of `buffer`.
    pub fn write_buffer(&mut self, buffer: Buffer, bytes: Vec<u8>)
        ensures
            final(self)@ == old(self)@,
            final(self).queue() == old(self).queue().push((buffer, bytes@)),
    {
        self.writes.push(BufferWrite { buffer, bytes });
        assert(self.queue() =~= old(self).queue().push((buffer, bytes@)));
    }
}

/// How a shader sees a binding.
#[derive(Clone, Copy, Debug, PartialEq, Eq, Structural)]
pub enum BindingKind {
    /// Storage that is only read.
    StorageRead,
    /// Storage that is read and written.
    StorageReadWrite,
    /// A uniform block.
    Uniform,
}

/// The shader stage that sees a binding.
#[derive(Clone, Copy, Debug, PartialEq, Eq, Structural)]
pub enum ShaderStage {
    Compute,
    Fragment,
}

/// The bindings of a pass, from binding 0 on, and the stage that sees them.
#[derive(Clone, Copy, Debug, PartialEq, Eq, Structural)]
pub struct BindGroupLayout {
    pub stage: ShaderStage,
    pub b0: BindingKind,
    pub b1: BindingKind,
    pub b2: Option<BindingKind>,
    pub b3: Option<BindingKind>,
    pub b4: Option<BindingKind>,
}

/// Bindings of a compute pass with three buffers.
pub open spec fn layout3(b0: BindingKind, b1: BindingKind, b2: BindingKind) -> BindGroupLayout {
    BindGroupLayout { stage: ShaderStage::Compute, b0, b1, b2: Some(b2), b3: None, b4: None }
}

/// Bindings of a compute pass with four buffers.
pub open spec fn layout4(
    b0: BindingKind,
    b1: BindingKind,
    b2: BindingKind,
    b3: BindingKind,
) -> BindGroupLayout {
    BindGroupLayout { stage: ShaderStage::Compute, b0, b1, b2: Some(b2), b3: Some(b3), b4: None }
}

/// Bindings of a compute pass with five buffers.
pub open spec fn layout5(
    b0: BindingKind,
    b1: BindingKind,
    b2: BindingKind,
    b3: BindingKind,
    b4: BindingKind,
) -> BindGroupLayout {
    BindGroupLayout {
        stage: ShaderStage::Compute,
        b0,
        b1,
        b2: Some(b2),
        b3: Some(b3),
        b4: Some(b4),
    }
}

impl BindGroupLayout {
    /// Bindings of a compute pass with three buffers.
    pub fn compute3(b0: BindingKind, b1: BindingKind, b2: BindingKind) -> (l: BindGroupLayout)
        ensures
            l == layout3(b0, b1, b2),
    {
        BindGroupLayout { stage: ShaderStage::Compute, b0, b1, b2: Some(b2), b3: None, b4: None }
    }

    /// Bindings of a compute pass with four buffers.
    pub fn compute4(b0: BindingKind, b1: BindingKind, b2: BindingKind, b3: BindingKind) -> (l:
        BindGroupLayout)
        ensures
            l == layout4(b0, b1, b2, b3),
    {
        BindGroupLayout {
            stage: ShaderStage::Compute,
            b0,
            b1,
            b2: Some(b2),
            b3: Some(b3),
            b4: None,
        }
    }

    /// Bindings of a compute pass with five buffers.
    pub fn compute5(
        b0: BindingKind,
        b1: BindingKind,
        b2: BindingKind,
        b3: BindingKind,
        b4: BindingKind,
    ) -> (l: BindGroupLayout)
        ensures
            l == layout5(b0, b1, b2, b3, b4),
    {
        BindGroupLayout {
            stage: ShaderStage::Compute,
            b0,
            b1,
            b2: Some(b2),
            b3: Some(b3),
            b4: Some(b4),
        }
    }
}

/// The buffers bound to the bindings of a layout, in order.
#[derive(Clone, Copy, Debug, PartialEq, Eq, Structural)]
pub struct BindGroup {
    pub b0: Buffer,
    pub b1: Buffer,
    pub b2: Option<Buffer>,
    pub b3: Option<Buffer>,
    pub b4: Option<Buffer>,
}

impl BindGroup {
    /// Binds two buffers.
    pub open spec fn of2(b0: Buffer, b1: Buffer) -> BindGroup {
        BindGroup { b0, b1, b2: None, b3: None, b4: None }
    }

    /// Binds three buffers.
    pub open spec fn of3(b0: Buffer, b1: Buffer, b2: Buffer) -> BindGroup {
        BindGroup { b0, b1, b2: Some(b2), b3: None, b4: None }
    }

    /// Binds four buffers.
    pub open spec fn of4(b0: Buffer, b1: Buffer, b2: Buffer, b3: Buffer) -> BindGroup {
        BindGroup { b0, b1, b2: Some(b2), b3: Some(b3), b4: None }
    }

    /// Binds five buffers.
    pub open spec fn of5(b0: Buffer, b1: Buffer, b2: Buffer, b3: Buffer, b4: Buffer) -> BindGroup {
        BindGroup { b0, b1, b2: Some(b2), b3: Some(b3), b4: Some(b4) }
    }
}

impl BindGroup {
    /// Binds three buffers.
    pub fn bind3(b0: Buffer, b1: Buffer, b2: Buffer) -> (g: BindGroup)
        ensures
            g == BindGroup::of3(b0, b1, b2),
    {
        BindGroup { b0, b1, b2: Some(b2), b3: None, b4: None }
    }

    /// Binds four buffers.
    pub fn bind4(b0: Buffer, b1: Buffer, b2: Buffer, b3: Buffer) -> (g: BindGroup)
        ensures
            g == BindGroup::of4(b0, b1, b2, b3),
    {
        BindGroup { b0, b1, b2: Some(b2), b3: Some(b3), b4: None }
    }

    /// Binds five buffers.
    pub fn bind5(b0: Buffer, b1: Buffer, b2: Buffer, b3: Buffer, b4: Buffer) -> (g: BindGroup)
        ensures
            g == BindGroup::of5(b0, b1, b2, b3, b4),
    {
        BindGroup { b0, b1, b2: Some(b2), b3: Some(b3), b4: Some(b4) }
    }
}

/// The shader entry points.
#[derive(Clone, Copy, Debug, PartialEq, Eq, Structural)]
pub enum Shader {
    Convolve,
    AffinityConstant,
    AffinityLocalized,
    GradientU,
    GradientASum,
    Flow,
    Reintegrate,
    ParameterFlow,
    /// Radix-4 transform along rows.
    FftRadix4H,
    /// Radix-4 transform along columns.
    FftRadix4V,
    /// Mixed radix-2/radix-4 transform along rows.
    FftRadix2x4H,
    /// Mixed radix-2/radix-4 transform along columns.
    FftRadix2x4V,
    SpectralMultiply,
    FftToPreG,
    Visualize,
}

impl Shader {
    /// Name of the entry point.
    pub open spec fn entry(self) -> Seq<char> {
        match self {
            Shader::FftRadix4H => "fft_1d_radix4"@,
            Shader::FftRadix4V => "fft_1d_radix4_v"@,
            Shader::FftRadix2x4H => "fft_1d_radix2x4"@,
            Shader::FftRadix2x4V => "fft_1d_radix2x4_v"@,
            Shader::SpectralMultiply => "spectral_multiply"@,
            Shader::FftToPreG => "fft_complex_to_pre_g"@,
            Shader::Visualize => "fs_main"@,
            _ => "main"@,
        }
    }

    /// Name of the file that holds the shader.
    pub open spec fn file(self) -> Seq<char> {
        match self {
            Shader::Convolve => "convolve.wgsl"@,
            Shader::AffinityConstant => "affinity_growth_constant.wgsl"@,
            Shader::AffinityLocalized => "affinity_growth_localized.wgsl"@,
            Shader::GradientU => "gradient_u.wgsl"@,
            Shader::GradientASum => "gradient_a_sum.wgsl"@,
            Shader::Flow => "flow.wgsl"@,
            Shader::Reintegrate => "reintegrate.wgsl"@,
            Shader::ParameterFlow => "parameter_flow.wgsl"@,
            Shader::FftRadix4H => "fft_1d_radix4.wgsl"@,
            Shader::FftRadix4V => "fft_1d_radix4_v.wgsl"@,
            Shader::FftRadix2x4H => "fft_1d_radix2x4.wgsl"@,
            Shader::FftRadix2x4V => "fft_1d_radix2x4_v.wgsl"@,
            Shader::SpectralMultiply => "spectral_multiply.wgsl"@,
            Shader::FftToPreG => "fft_complex_to_pre_g.wgsl"@,
            Shader::Visualize => "visualize.wgsl"@,
        }
    }

    /// Whether the shader is one of the passes of a step, which share the type
    /// declarations of `types.wgsl`.
    pub open spec fn shares_types(self) -> bool {
        match self {
            Shader::Convolve => true,
            Shader::AffinityConstant => true,
            Shader::AffinityLocalized => true,
            Shader::GradientU => true,
            Shader::GradientASum => true,
            Shader::Flow => true,
            Shader::Reintegrate => true,
            Shader::ParameterFlow => true,
            _ => false,
        }
    }

    /// Name of the entry point; of the fragment entry point where the shader
    /// draws.
    pub fn entry_point(self) -> (name: &'static str)
        ensures
            name@ == self.entry(),
    {
        match self {
            Shader::FftRadix4H => "fft_1d_radix4",
            Shader::FftRadix4V => "fft_1d_radix4_v",
            Shader::FftRadix2x4H => "fft_1d_radix2x4",
            Shader::FftRadix2x4V => "fft_1d_radix2x4_v",
            Shader::SpectralMultiply => "spectral_multiply",
            Shader::FftToPreG => "fft_complex_to_pre_g",
            Shader::Visualize => "fs_main",
            _ => "main",
        }
    }

    /// Name of the file that holds the shader.
    pub fn file_name(self) -> (name: &'static str)
        ensures
            name@ == self.file(),
    {
        match self {
            Shader::Convolve => "convolve.wgsl",
            Shader::AffinityConstant => "affinity_growth_constant.wgsl",
            Shader::AffinityLocalized => "affinity_growth_localized.wgsl",
            Shader::GradientU => "gradient_u.wgsl",
            Shader::GradientASum => "gradient_a_sum.wgsl",
            Shader::Flow => "flow.wgsl",
            Shader::Reintegrate => "reintegrate.wgsl",
            Shader::ParameterFlow => "parameter_flow.wgsl",
            Shader::FftRadix4H => "fft_1d_radix4.wgsl",
            Shader::FftRadix4V => "fft_1d_radix4_v.wgsl",
            Shader::FftRadix2x4H => "fft_1d_radix2x4.wgsl",
            Shader::FftRadix2x4V => "fft_1d_radix2x4_v.wgsl",
            Shader::SpectralMultiply => "spectral_multiply.wgsl",
            Shader::FftToPreG => "fft_complex_to_pre_g.wgsl",
            Shader::Visualize => "visualize.wgsl",
        }
    }

    /// Whether `types.wgsl` is put in front of the shader's file.
    pub fn needs_types(self) -> (r: bool)
        ensures
            r == self.shares_types(),
    {
        match self {
            Shader::Convolve => true,
            Shader::AffinityConstant => true,
            Shader::AffinityLocalized => true,
            Shader::GradientU => true,
            Shader::GradientASum => true,
            Shader::Flow => true,
            Shader::Reintegrate => true,
            Shader::ParameterFlow => true,
            _ => false,
        }
    }
}

/// A compiled compute shader: its entry point, the size that specialises its
/// workgroup where it has one, and its bindings.
#[derive(Clone, Copy, Debug, PartialEq, Eq, Structural)]
pub struct ComputePipeline {
    pub shader: Shader,
    pub workgroup_x: Option<u32>,
    pub layout: BindGroupLayout,
}

impl ComputePipeline {
    /// A pipeline whose workgroup size the shader itself fixes.
    pub open spec fn of(shader: Shader, layout: BindGroupLayout) -> ComputePipeline {
        ComputePipeline { shader, workgroup_x: None, layout }
    }

    /// A pipeline whose workgroup size the shader itself fixes.
    pub fn new(shader: Shader, layout: BindGroupLayout) -> (p: ComputePipeline)
        ensures
            p == ComputePipeline::of(shader, layout),
    {
        ComputePipeline { shader, workgroup_x: None, layout }
    }
}

/// A part of the render target, in pixels.
#[derive(Clone, Copy, Debug, PartialEq, Eq, Structural)]
pub struct Viewport {
    pub x: u32,
    pub y: u32,
    pub width: u32,
    pub height: u32,
}

/// One recorded command.
#[derive(Clone, Copy, Debug, PartialEq, Eq, Structural)]
pub enum Command {
    /// A compute pass with one dispatch of `x * y * z` workgroups.
    Dispatch { pipeline: ComputePipeline, bind_group: BindGroup, x: u32, y: u32, z: u32 },
    /// A copy of `size` bytes between buffers.
    Copy { src: Buffer, src_offset: u64, dst: Buffer, dst_offset: u64, size: u64 },
    /// A render pass that clears the target to black and draws `vertices`
    /// vertices once, inside `viewport` where one is given.
    Draw {
        shader: Shader,
        layout: BindGroupLayout,
        bind_group: BindGroup,
        vertices: u32,
        viewport: Option<Viewport>,
    },
}

/// Whether one of the bindings of a dispatch or a draw has the given kind and
/// is bound to the given buffer.
pub open spec fn binds(l: BindGroupLayout, g: BindGroup, kind: BindingKind, b: Buffer) -> bool {
    ||| l.b0 == kind && g.b0 == b
    ||| l.b1 == kind && g.b1 == b
    ||| l.b2 == Some(kind) && g.b2 == Some(b)
    ||| l.b3 == Some(kind) && g.b3 == Some(b)
    ||| l.b4 == Some(kind) && g.b4 == Some(b)
}

impl Command {
    /// Whether the command reads `b`. A storage binding that is read and
    /// written is an output of its pass; no pass reads what it held before.
    pub open spec fn reads(self, b: Buffer) -> bool {
        match self {
            Command::Dispatch { pipeline, bind_group, .. } => {
                ||| binds(pipeline.layout, bind_group, BindingKind::StorageRead, b)
                ||| binds(pipeline.layout, bind_group, BindingKind::Uniform, b)
            },
            Command::Copy { src, .. } => src == b,
            Command::Draw { layout, bind_group, .. } => {
                ||| binds(layout, bind_group, BindingKind::StorageRead, b)
                ||| binds(layout, bind_group, BindingKind::Uniform, b)
            },
        }
    }

    /// Whether the command writes `b`.
    pub open spec fn writes(self, b: Buffer) -> bool {
        match self {
            Command::Dispatch { pipeline, bind_group, .. } => binds(
                pipeline.layout,
                bind_group,
                BindingKind::StorageReadWrite,
                b,
            ),
            Command::Copy { dst, .. } => dst == b,
            Command::Draw { layout, bind_group, .. } => binds(
                layout,
                bind_group,
                BindingKind::StorageReadWrite,
                b,
            ),
        }
    }
}

/// Commands in the order in which they will run.
#[derive(Debug)]
pub struct CommandEncoder {
    pub commands: Vec<Command>,
}

impl View for CommandEncoder {
    type V = Seq<Command>;

    open spec fn view(&self) -> Seq<Command> {
        self.commands@
    }
}

impl CommandEncoder {
    /// An encoder without commands.
    pub fn new() -> (encoder: CommandEncoder)
        ensures
            encoder@ == Seq::<Command>::empty(),
    {
        CommandEncoder { commands: Vec::new() }
    }

    /// Appends a command.
    pub fn push(&mut self, command: Command)
        ensures
            final(self)@ == old(self)@.push(command),
    {
        self.commands.push(command);
    }

    /// Appends a dispatch of `x * y` workgroups.
    pub fn dispatch(&mut self, pipeline: &ComputePipeline, bind_group: &BindGroup, x: u32, y: u32)
        ensures
            final(self)@ == old(self)@.push(
                (Command::Dispatch { pipeline: *pipeline, bind_group: *bind_group, x, y, z: 1 }),
            ),
    {
        self.push(
            Command::Dispatch { pipeline: *pipeline, bind_group: *bind_group, x, y, z: 1 },
        );
    }

    /// Appends a copy of `size` bytes from `src_offset` of `src` to
    /// `dst_offset` of `dst`.
    pub fn copy_buffer_to_buffer(
        &mut self,
        src: Buffer,
        src_offset: u64,
        dst: Buffer,
        dst_offset: u64,
        size: u64,
    )
        ensures
            final(self)@ == old(self)@.push(
                (Command::Copy { src, src_offset, dst, dst_offset, size }),
            ),
    {
        self.push(Command::Copy { src, src_offset, dst, dst_offset, size });
    }
}

/// The number of workgroups of `edge` items that cover `n` items.
pub open spec fn groups(n: int, edge: int) -> int {
    (n + edge - 1) / edge
}

/// The workgroups of a dispatch cover every item, the last one covers at least
/// one, and none is dispatched for no items.
pub proof fn law_groups_cover(n: int, edge: int)
    requires
        0 <= n,
        0 < edge,
    ensures
        n <= groups(n, edge) * edge < n + edge,
        n == 0 ==> groups(n, edge) == 0,
{
    let g = groups(n, edge);
    vstd::arithmetic::div_mod::lemma_fundamental_div_mod(n + edge - 1, edge);
    assert(edge * g == g * edge) by (nonlinear_arith);
    if n == 0 {
        vstd::arithmetic::div_mod::lemma_basic_div(edge - 1, edge);
    }
}

/// `n` divided by `edge`, rounded up.
pub fn div_ceil(n: u32, edge: u32) -> (g: u32)
    requires
        0 < edge,
    ensures
        g == groups(n as int, edge as int),
{
    let q: u32 = n / edge;
    let r: u32 = n % edge;
    proof {
        vstd::arithmetic::div_mod::lemma_fundamental_div_mod(n as int, edge as int);
        if r == 0 {
            assert(n + edge - 1 == q * edge + (edge - 1)) by (nonlinear_arith)
                requires
                    n == edge * q + r,
                    r == 0,
            ;
            vstd::arithmetic::div_mod::lemma_fundamental_div_mod_converse(
                n + edge - 1,
                edge as int,
                q as int,
                edge - 1,
            );
        } else {
            assert(n + edge - 1 == (q + 1) * edge + (r - 1)) by (nonlinear_arith)
                requires
                    n == edge * q + r,
            ;
            vstd::arithmetic::div_mod::lemma_fundamental_div_mod_converse(
                n + edge - 1,
                edge as int,
                q + 1,
                r - 1,
            );
            assert(q < u32::MAX) by (nonlinear_arith)
                requires
                    n == edge * q + r,
                    r > 0,
                    edge >= 1,
                    n <= u32::MAX,
            ;
        }
    }
    if r == 0 {
        q
    } else {
        q + 1
    }
}

/// Every shader has its own file and its own entry point.
pub proof fn law_shader_names()
    ensures
        Shader::Convolve.file() == "convolve.wgsl"@,
        Shader::AffinityConstant.file() == "affinity_growth_constant.wgsl"@,
        Shader::AffinityLocalized.file() == "affinity_growth_localized.wgsl"@,
        Shader::GradientU.file() == "gradient_u.wgsl"@,
        Shader::GradientASum.file() == "gradient_a_sum.wgsl"@,
        Shader::Flow.file() == "flow.wgsl"@,
        Shader::Reintegrate.file() == "reintegrate.wgsl"@,
        Shader::ParameterFlow.file() == "parameter_flow.wgsl"@,
        Shader::FftRadix4H.file() == "fft_1d_radix4.wgsl"@,
        Shader::FftRadix4V.file() == "fft_1d_radix4_v.wgsl"@,
        Shader::FftRadix2x4H.file() == "fft_1d_radix2x4.wgsl"@,
        Shader::FftRadix2x4V.file() == "fft_1d_radix2x4_v.wgsl"@,
        Shader::SpectralMultiply.file() == "spectral_multiply.wgsl"@,
        Shader::FftToPreG.file() == "fft_complex_to_pre_g.wgsl"@,
        Shader::Visualize.file() == "visualize.wgsl"@,
        Shader::FftRadix4H.entry() == "fft_1d_radix4"@,
        Shader::FftRadix4V.entry() == "fft_1d_radix4_v"@,
        Shader::FftRadix2x4H.entry() == "fft_1d_radix2x4"@,
        Shader::FftRadix2x4V.entry() == "fft_1d_radix2x4_v"@,
        Shader::SpectralMultiply.entry() == "spectral_multiply"@,
        Shader::FftToPreG.entry() == "fft_complex_to_pre_g"@,
        Shader::Visualize.entry() == "fs_main"@,
        forall|s: Shader| #[trigger] s.shares_types() ==> s.entry() == "main"@,
        forall|s: Shader| #[trigger]
            s.shares_types() <==> s == Shader::Convolve || s == Shader::AffinityConstant || s
                == Shader::AffinityLocalized || s == Shader::GradientU || s == Shader::GradientASum
                || s == Shader::Flow || s == Shader::Reintegrate || s == Shader::ParameterFlow,
{
}

/// The usages that buffers are asked for with: storage, uniform blocks that the
/// host may rewrite, and staging buffers that the host maps.
pub proof fn law_usages(u: BufferUsages)
    ensures
        BufferUsages::of_storage().storage && !BufferUsages::of_storage().uniform,
        !BufferUsages::of_storage().copy_src && !BufferUsages::of_storage().copy_dst,
        !BufferUsages::of_storage().map_read,
        BufferUsages::of_uniform().uniform && BufferUsages::of_uniform().copy_dst,
        !BufferUsages::of_uniform().storage && !BufferUsages::of_uniform().copy_src,
        !BufferUsages::of_uniform().map_read,
        BufferUsages::of_readback().map_read && BufferUsages::of_readback().copy_dst,
        !BufferUsages::of_readback().storage && !BufferUsages::of_readback().uniform,
        !BufferUsages::of_readback().copy_src,
        u.and_copy_src() == (BufferUsages { copy_src: true, ..u }),
        u.and_copy_dst() == (BufferUsages { copy_dst: true, ..u }),
{
}

/// A buffer has the size that was asked for; it starts zeroed, or with the
/// bytes that it was given and no more.
pub proof fn law_buffers(size: int, bytes: Seq<u8>, usage: BufferUsages)
    ensures
        zeroed(size, usage).size == size && zeroed(size, usage).contents is None,
        filled(bytes, usage).size == bytes.len() && filled(bytes, usage).contents == Some(bytes),
        zeroed(size, usage).usage == usage && filled(bytes, usage).usage == usage,
{
}

/// The buffers of a group are bound in the order in which they are given, and
/// nothing is bound behind them; likewise the kinds of a layout.
pub proof fn law_bound_in_order(b0: Buffer, b1: Buffer, b2: Buffer, b3: Buffer, b4: Buffer)
    ensures
        BindGroup::of2(b0, b1) == (BindGroup { b0, b1, b2: None, b3: None, b4: None }),
        BindGroup::of3(b0, b1, b2) == (BindGroup { b0, b1, b2: Some(b2), b3: None, b4: None }),
        BindGroup::of4(b0, b1, b2, b3) == (BindGroup {
            b0,
            b1,
            b2: Some(b2),
            b3: Some(b3),
            b4: None,
        }),
        BindGroup::of5(b0, b1, b2, b3, b4) == (BindGroup {
            b0,
            b1,
            b2: Some(b2),
            b3: Some(b3),
            b4: Some(b4),
        }),
{
}

} // verus!
