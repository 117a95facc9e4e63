//! The compositor without the GPU: which compiled shader draws, which shaders
//! are pinned, the passes of an effect chain, and how a frame's pixels go into a
//! texture.

use vstd::prelude::*;
use vstd::string::*;

use crate::clock::ClockSnapshot;
use crate::commands::{chain_copy, ChainSlot, ChainSlotModel, ShaderId, SlotRef, SlotRefModel};
use crate::seqs::{any, first_at, first_at_bounds, first_at_is, kept, kept_satisfies};
use crate::text::{view_opt, views};
use crate::units::{floor_mod, Micro, MicroBeats, Single};
use crate::video::{DecodedFrame, HapTextureFormat, PixelData};

verus! {

/// The language of a shader source.
#[derive(Clone, Copy, Debug, PartialEq, Eq, Structural)]
pub enum ShaderLang {
    Glsl,
    Wgsl,
}

/// A shader pinned into the pool: a frozen compile that a cue can draw with.
#[derive(Debug)]
pub struct PooledShader {
    pub id: ShaderId,
    pub name: String,
}

/// The mathematical content of a [`PooledShader`].
pub struct PooledShaderModel {
    pub id: ShaderId,
    pub name: Seq<char>,
}

impl View for PooledShader {
    type V = PooledShaderModel;

    open spec fn view(&self) -> PooledShaderModel {
        PooledShaderModel { id: self.id, name: self.name@ }
    }
}

/// A format of texture data on the GPU.
#[derive(Clone, Copy, Debug, PartialEq, Eq, Structural)]
pub enum TextureFormat {
    Rgba8Unorm,
    Bc1RgbaUnorm,
    Bc3RgbaUnorm,
    Bc4RUnorm,
    Bc7RgbaUnorm,
}

/// The texture format of compressed blocks. None of them is sRGB: shaders work
/// on the values as they are stored.
pub open spec fn spec_texture_format(f: HapTextureFormat) -> TextureFormat {
    match f {
        HapTextureFormat::Bc1 => TextureFormat::Bc1RgbaUnorm,
        HapTextureFormat::Bc3 | HapTextureFormat::Bc3YCoCg => TextureFormat::Bc3RgbaUnorm,
        HapTextureFormat::Bc4 => TextureFormat::Bc4RUnorm,
        HapTextureFormat::Bc7 => TextureFormat::Bc7RgbaUnorm,
    }
}

/// The texture format of compressed blocks.
pub fn texture_format(f: HapTextureFormat) -> (r: TextureFormat)
    ensures
        r == spec_texture_format(f),
{
    match f {
        HapTextureFormat::Bc1 => TextureFormat::Bc1RgbaUnorm,
        HapTextureFormat::Bc3 | HapTextureFormat::Bc3YCoCg => TextureFormat::Bc3RgbaUnorm,
        HapTextureFormat::Bc4 => TextureFormat::Bc4RUnorm,
        HapTextureFormat::Bc7 => TextureFormat::Bc7RgbaUnorm,
    }
}

/// Bytes of one block of four by four pixels.
pub open spec fn spec_block_bytes(f: HapTextureFormat) -> int {
    match f {
        HapTextureFormat::Bc1 | HapTextureFormat::Bc4 => 8,
        HapTextureFormat::Bc3 | HapTextureFormat::Bc3YCoCg | HapTextureFormat::Bc7 => 16,
    }
}

/// Bytes of one block of four by four pixels.
pub fn block_bytes(f: HapTextureFormat) -> (r: u32)
    ensures
        r == spec_block_bytes(f),
{
    match f {
        HapTextureFormat::Bc1 | HapTextureFormat::Bc4 => 8,
        HapTextureFormat::Bc3 | HapTextureFormat::Bc3YCoCg | HapTextureFormat::Bc7 => 16,
    }
}

/// The next multiple of four.
pub open spec fn padded(x: int) -> int {
    (x + 3) / 4 * 4
}

/// The largest side of a frame of blocks that can be padded.
pub const MAX_SIDE: u32 = 0xffff_fffc;

/// The next multiple of four.
pub fn pad(x: u32) -> (r: u32)
    requires
        x <= MAX_SIDE,
    ensures
        r == padded(x as int),
{
    (x + 3) / 4 * 4
}

/// The texture that holds the current clip's pixels.
#[derive(Clone, Copy, Debug, PartialEq, Eq, Structural)]
pub struct VideoTexture {
    pub format: TextureFormat,
    pub w: u32,
    pub h: u32,
    pub has_alpha: bool,
}

/// How bytes are laid out for a copy into a texture.
#[derive(Clone, Copy, Debug, PartialEq, Eq, Structural)]
pub struct UploadLayout {
    pub bytes_per_row: u64,
    pub rows: u32,
}

/// How a frame gets to the GPU.
#[derive(Clone, Copy, Debug, PartialEq, Eq, Structural)]
pub struct UploadPlan {
    /// Whether a new texture has to be made first.
    pub create: bool,
    /// The texture after the upload.
    pub texture: VideoTexture,
    pub main: UploadLayout,
    /// The separate alpha plane's layout, where there is one.
    pub alpha: Option<UploadLayout>,
}

/// The texture that a frame's pixels need: blocks are padded to whole blocks.
pub open spec fn texture_for(frame: DecodedFrame) -> VideoTexture {
    match frame.pixels {
        PixelData::Bc { format, alpha, .. } => VideoTexture {
            format: spec_texture_format(format),
            w: padded(frame.w as int) as u32,
            h: padded(frame.h as int) as u32,
            has_alpha: alpha is Some,
        },
        PixelData::Rgba { .. } => VideoTexture {
            format: TextureFormat::Rgba8Unorm,
            w: frame.w,
            h: frame.h,
            has_alpha: false,
        },
    }
}

/// Whether a texture serves a frame: it is the texture that the frame's pixels
/// need, in format, size and alpha plane.
pub open spec fn serves(t: Option<VideoTexture>, frame: DecodedFrame) -> bool {
    t == Some(texture_for(frame))
}

/// The layout of blocks in a texture of this size.
pub open spec fn block_layout(f: HapTextureFormat, w: int, h: int) -> UploadLayout {
    UploadLayout { bytes_per_row: (w / 4 * spec_block_bytes(f)) as u64, rows: (h / 4) as u32 }
}

fn layout_blocks(f: HapTextureFormat, w: u32, h: u32) -> (r: UploadLayout)
    ensures
        r == block_layout(f, w as int, h as int),
{
    let across: u64 = (w / 4) as u64;
    let size: u64 = block_bytes(f) as u64;
    proof {
        let (a, b) = (across as int, size as int);
        assert(0 <= a * b <= 0x4000_0000 * 16) by (nonlinear_arith)
            requires
                0 <= a <= 0x4000_0000,
                0 <= b <= 16,
        ;
    }
    UploadLayout { bytes_per_row: across * size, rows: h / 4 }
}

/// How a frame gets to the GPU, given the texture that is there.
pub open spec fn plan_for(current: Option<VideoTexture>, frame: DecodedFrame) -> UploadPlan {
    let t = texture_for(frame);
    UploadPlan {
        create: !serves(current, frame),
        texture: t,
        main: match frame.pixels {
            PixelData::Bc { format, .. } => block_layout(format, t.w as int, t.h as int),
            PixelData::Rgba { stride, .. } => UploadLayout { bytes_per_row: stride as u64, rows: t.h },
        },
        alpha: if t.has_alpha {
            Some(block_layout(HapTextureFormat::Bc4, t.w as int, t.h as int))
        } else {
            None
        },
    }
}

/// Which compiled shader draws.
#[derive(Clone, Copy, Debug, PartialEq, Eq, Structural)]
pub enum DrawWith {
    /// A pinned shader of the pool.
    Pinned(ShaderId),
    /// The shader under edit, as it last compiled.
    Live,
    /// The built-in shader that shows the picture as it is.
    Passthrough,
}

/// What one pass draws with.
#[derive(Debug, PartialEq, Eq)]
pub enum Program {
    /// A shader of the compositor's own.
    Shader(DrawWith),
    /// A built-in effect, by name.
    Builtin(String),
    /// An effect file, by path.
    Isf(String),
}

/// The mathematical content of a [`Program`].
pub enum ProgramModel {
    Shader(DrawWith),
    Builtin(Seq<char>),
    Isf(Seq<char>),
}

impl View for Program {
    type V = ProgramModel;

    open spec fn view(&self) -> ProgramModel {
        match self {
            Program::Shader(d) => ProgramModel::Shader(*d),
            Program::Builtin(n) => ProgramModel::Builtin(n@),
            Program::Isf(p) => ProgramModel::Isf(p@),
        }
    }
}

/// What a shader reads as `prev()`.
#[derive(Clone, Copy, Debug, PartialEq, Eq, Structural)]
pub enum PassInput {
    /// The picture that was uploaded.
    Picture,
    /// The output of an earlier pass.
    Pass(usize),
}

/// One pass over the output.
#[derive(Debug, PartialEq, Eq)]
pub struct Pass {
    pub program: Program,
    pub prev: PassInput,
}

/// The mathematical content of a [`Pass`].
pub struct PassModel {
    pub program: ProgramModel,
    pub prev: PassInput,
}

impl View for Pass {
    type V = PassModel;

    open spec fn view(&self) -> PassModel {
        PassModel { program: self.program@, prev: self.prev }
    }
}

/// What the compositor knows of its shaders and its texture.
#[derive(Debug)]
pub struct Renderer {
    pub shader_error: Option<String>,
    /// Source and language of the last live compile that worked.
    pub last_good: Option<(String, ShaderLang)>,
    pub pool: Vec<PooledShader>,
    pub next_pool_id: ShaderId,
    /// The pinned shader that stands in for the live one.
    pub active_override: Option<ShaderId>,
    /// The effect chain that is playing.
    pub chain: Vec<ChainSlot>,
    pub video: Option<VideoTexture>,
}

/// The mathematical content of a [`Renderer`].
pub struct RendererModel {
    pub shader_error: Option<Seq<char>>,
    pub last_good: Option<(Seq<char>, ShaderLang)>,
    pub pool: Seq<PooledShaderModel>,
    pub next_pool_id: ShaderId,
    pub active_override: Option<ShaderId>,
    pub chain: Seq<ChainSlotModel>,
    pub video: Option<VideoTexture>,
}

/// A shader source by its characters.
pub open spec fn source_model(s: Option<(String, ShaderLang)>) -> Option<(Seq<char>, ShaderLang)> {
    match s {
        Some(p) => Some((p.0@, p.1)),
        None => None,
    }
}

impl View for Renderer {
    type V = RendererModel;

    open spec fn view(&self) -> RendererModel {
        RendererModel {
            shader_error: view_opt(self.shader_error),
            last_good: source_model(self.last_good),
            pool: views(self.pool@),
            next_pool_id: self.next_pool_id,
            active_override: self.active_override,
            chain: views(self.chain@),
            video: self.video,
        }
    }
}

/// Selects the pinned shader with this id.
pub open spec fn is_pin(id: ShaderId) -> spec_fn(PooledShaderModel) -> bool {
    |p: PooledShaderModel| p.id == id
}

/// Selects the pinned shaders with other ids.
pub open spec fn is_other_pin(id: ShaderId) -> spec_fn(PooledShaderModel) -> bool {
    |p: PooledShaderModel| p.id != id
}

impl RendererModel {
    /// Every pinned shader has its own id, below the next one to be given out.
    pub open spec fn wf(self) -> bool {
        &&& forall|i: int| 0 <= i < self.pool.len() ==> #[trigger] self.pool[i].id < self.next_pool_id
        &&& forall|i: int, j: int|
            0 <= i < j < self.pool.len() ==> #[trigger] self.pool[i].id != #[trigger] self.pool[j].id
    }

    /// After a live compile: a success takes over and clears the error, a
    /// failure leaves the last shader that worked and keeps the message.
    pub open spec fn compiled(
        self,
        src: Seq<char>,
        lang: ShaderLang,
        outcome: Result<(), Seq<char>>,
    ) -> RendererModel {
        match outcome {
            Ok(_) => RendererModel { shader_error: None, last_good: Some((src, lang)), ..self },
            Err(e) => RendererModel { shader_error: Some(e), ..self },
        }
    }

    /// After pinning the last shader that worked.
    pub open spec fn pinned(self, name: Seq<char>) -> RendererModel {
        RendererModel {
            pool: self.pool.push(PooledShaderModel { id: self.next_pool_id, name }),
            next_pool_id: (self.next_pool_id + 1) as u32,
            ..self
        }
    }

    /// After dropping a pinned shader.
    pub open spec fn unpinned(self, id: ShaderId) -> RendererModel {
        RendererModel {
            pool: kept(self.pool, is_other_pin(id)),
            active_override: if self.active_override == Some(id) {
                None
            } else {
                self.active_override
            },
            ..self
        }
    }

    /// What a pin draws with while it is in the pool; without one, or when it
    /// is gone, the live shader draws, and before that has ever compiled the
    /// built-in one.
    pub open spec fn drawn(self, pin: Option<ShaderId>) -> DrawWith {
        match pin {
            Some(id) if any(self.pool, is_pin(id)) => DrawWith::Pinned(id),
            _ => if self.last_good is Some {
                DrawWith::Live
            } else {
                DrawWith::Passthrough
            },
        }
    }

    /// Which shader draws outside an effect chain: a pinned override that is
    /// still in the pool, else the live shader, else the built-in one.
    pub open spec fn draws_with(self) -> DrawWith {
        self.drawn(self.active_override)
    }

    /// What a stage of an effect chain draws with.
    pub open spec fn program_of(self, slot: SlotRefModel) -> ProgramModel {
        match slot {
            SlotRefModel::Live => ProgramModel::Shader(self.draws_with()),
            SlotRefModel::Pinned(id) => ProgramModel::Shader(self.drawn(Some(id))),
            SlotRefModel::Builtin(name) => ProgramModel::Builtin(name),
            SlotRefModel::Isf(path) => ProgramModel::Isf(path),
        }
    }

    /// The passes that make the output, in order; the last one shows. Without
    /// an effect chain the live shader draws the picture. With one, a first
    /// pass shows the picture as it is, and then each stage reads the pass
    /// before it.
    pub open spec fn spec_passes(self) -> Seq<PassModel> {
        if self.chain.len() == 0 {
            seq![PassModel { program: ProgramModel::Shader(self.draws_with()), prev: PassInput::Picture }]
        } else {
            Seq::new(
                self.chain.len() + 1,
                |k: int|
                    if k == 0 {
                        PassModel {
                            program: ProgramModel::Shader(DrawWith::Passthrough),
                            prev: PassInput::Picture,
                        }
                    } else {
                        PassModel {
                            program: self.program_of(self.chain[k - 1].shader),
                            prev: PassInput::Pass((k - 1) as usize),
                        }
                    },
            )
        }
    }
}

impl Renderer {
    /// Nothing compiled, nothing pinned, no picture.
    pub fn new() -> (r: Renderer)
        ensures
            r@ == (RendererModel {
                shader_error: None,
                last_good: None,
                pool: seq![],
                next_pool_id: 1,
                active_override: None,
                chain: seq![],
                video: None,
            }),
            r@.wf(),
    {
        let r = Renderer {
            shader_error: None,
            last_good: None,
            pool: Vec::new(),
            next_pool_id: 1,
            active_override: None,
            chain: Vec::new(),
            video: None,
        };
        proof {
            assert(r@.pool =~= Seq::<PooledShaderModel>::empty());
            assert(r@.chain =~= Seq::<ChainSlotModel>::empty());
        }
        r
    }

    /// The message of the last live compile, if it failed.
    pub fn shader_error(&self) -> (r: Option<&str>)
        ensures
            match r {
                Some(s) => self@.shader_error == Some(s@),
                None => self@.shader_error is None,
            },
    {
        match &self.shader_error {
            Some(s) => Some(s.as_str()),
            None => None,
        }
    }

    /// Takes note of how the live shader compiled.
    pub fn set_shader(&mut self, src: String, lang: ShaderLang, outcome: Result<(), String>)
        ensures
            final(self)@ == old(self)@.compiled(
                src@,
                lang,
                match outcome {
                    Ok(_) => Ok(()),
                    Err(e) => Err(e@),
                },
            ),
    {
        match outcome {
            Ok(_) => {
                self.shader_error = None;
                self.last_good = Some((src, lang));
            },
            Err(e) => {
                self.shader_error = Some(e);
            },
        }
    }

    /// The source to compile for a pin: the last live shader that worked.
    pub fn capture_source(&self) -> (r: Option<(String, ShaderLang)>)
        ensures
            source_model(r) == self@.last_good,
    {
        match &self.last_good {
            Some(p) => Some((p.0.clone(), p.1)),
            None => None,
        }
    }

    /// Pins the last live shader that worked, unless there is none or it did
    /// not compile again. Returns the new id.
    pub fn capture_current(&mut self, name: String, compiled: bool) -> (r: Option<ShaderId>)
        requires
            old(self)@.wf(),
            old(self).next_pool_id < u32::MAX,
        ensures
            final(self)@.wf(),
            if compiled && old(self)@.last_good is Some {
                r == Some(old(self).next_pool_id) && final(self)@ == old(self)@.pinned(name@)
            } else {
                r is None && final(self)@ == old(self)@
            },
    {
        if !compiled || self.last_good.is_none() {
            return None;
        }
        let id: ShaderId = self.next_pool_id;
        let ghost before = self.pool@;
        let entry = PooledShader { id, name };
        self.pool.push(entry);
        self.next_pool_id = id + 1;
        proof {
            assert(views(self.pool@) =~= views(before).push(entry@));
            pinning_keeps_ids_apart(old(self)@, name@);
        }
        Some(id)
    }

    /// Drops a pinned shader, and the override if it was that one.
    pub fn remove_pool_shader(&mut self, id: ShaderId)
        requires
            old(self)@.wf(),
        ensures
            final(self)@ == old(self)@.unpinned(id),
            final(self)@.wf(),
    {
        let ghost all = views(self.pool@);
        let mut rest: Vec<PooledShader> = Vec::new();
        let mut i: usize = 0;
        proof {
            assert(views(rest@) =~= kept(all.take(0), is_other_pin(id)));
        }
        while i < self.pool.len()
            invariant
                i <= self.pool@.len(),
                all == views(self.pool@),
                views(rest@) == kept(all.take(i as int), is_other_pin(id)),
            decreases self.pool@.len() - i,
        {
            proof {
                assert(all.take(i + 1).drop_last() =~= all.take(i as int));
                assert(all.take(i + 1).last() == self.pool@[i as int]@);
            }
            if self.pool[i].id != id {
                let ghost before = rest@;
                let entry = PooledShader { id: self.pool[i].id, name: self.pool[i].name.clone() };
                rest.push(entry);
                proof {
                    assert(views(rest@) =~= views(before).push(entry@));
                }
            }
            i += 1;
        }
        proof {
            assert(all.take(all.len() as int) =~= all);
            unpinning_keeps_ids_apart(self@, id);
        }
        self.pool = rest;
        if self.active_override == Some(id) {
            self.active_override = None;
        }
    }

    /// Picks the pinned shader that stands in for the live one.
    pub fn set_active_shader(&mut self, id: Option<ShaderId>)
        ensures
            final(self)@ == (RendererModel { active_override: id, ..old(self)@ }),
    {
        self.active_override = id;
    }

    /// Plays an effect chain; an empty one plays the live shader.
    pub fn set_active_chain(&mut self, chain: &Vec<ChainSlot>)
        ensures
            final(self)@ == (RendererModel { chain: views(chain@), ..old(self)@ }),
    {
        self.chain = chain_copy(chain);
    }

    /// Id and name of each pinned shader, in the order they were pinned.
    pub fn pool_view(&self) -> (r: Vec<PooledShader>)
        ensures
            views(r@) == self@.pool,
    {
        let mut r: Vec<PooledShader> = Vec::new();
        let mut i: usize = 0;
        while i < self.pool.len()
            invariant
                i <= self.pool@.len(),
                r@.len() == i,
                forall|j: int| 0 <= j < i ==> #[trigger] r@[j]@ == self.pool@[j]@,
            decreases self.pool@.len() - i,
        {
            r.push(PooledShader { id: self.pool[i].id, name: self.pool[i].name.clone() });
            i += 1;
        }
        proof {
            assert(views(r@) =~= self@.pool);
        }
        r
    }

    fn pick(&self, pin: Option<ShaderId>) -> (r: DrawWith)
        ensures
            r == self@.drawn(pin),
    {
        if let Some(id) = pin {
            let mut i: usize = 0;
            while i < self.pool.len() && self.pool[i].id != id
                invariant
                    i <= self.pool@.len(),
                    forall|j: int| 0 <= j < i ==> #[trigger] self.pool@[j].id != id,
                decreases self.pool@.len() - i,
            {
                i += 1;
            }
            proof {
                first_at_is(self@.pool, is_pin(id), i as int);
            }
            if i < self.pool.len() {
                return DrawWith::Pinned(id);
            }
        }
        if self.last_good.is_some() {
            DrawWith::Live
        } else {
            DrawWith::Passthrough
        }
    }

    /// Which compiled shader draws outside an effect chain.
    pub fn draw_with(&self) -> (r: DrawWith)
        ensures
            r == self@.draws_with(),
    {
        self.pick(self.active_override)
    }

    fn program(&self, slot: &SlotRef) -> (r: Program)
        ensures
            r@ == self@.program_of(slot@),
    {
        match slot {
            SlotRef::Live => Program::Shader(self.draw_with()),
            SlotRef::Pinned(id) => Program::Shader(self.pick(Some(*id))),
            SlotRef::Builtin(name) => Program::Builtin(name.clone()),
            SlotRef::Isf(path) => Program::Isf(path.clone()),
        }
    }

    /// The passes that make the output, in order; the last one shows.
    pub fn passes(&self) -> (r: Vec<Pass>)
        ensures
            views(r@) == self@.spec_passes(),
    {
        let mut r: Vec<Pass> = Vec::new();
        if self.chain.len() == 0 {
            r.push(Pass { program: Program::Shader(self.draw_with()), prev: PassInput::Picture });
            proof {
                assert(views(r@) =~= self@.spec_passes());
            }
            return r;
        }
        r.push(Pass { program: Program::Shader(DrawWith::Passthrough), prev: PassInput::Picture });
        let mut i: usize = 0;
        while i < self.chain.len()
            invariant
                0 < self.chain@.len(),
                i <= self.chain@.len(),
                r@.len() == i + 1,
                forall|k: int| 0 <= k <= i ==> (#[trigger] r@[k])@ == self@.spec_passes()[k],
            decreases self.chain@.len() - i,
        {
            r.push(Pass { program: self.program(&self.chain[i].shader), prev: PassInput::Pass(i) });
            i += 1;
        }
        proof {
            assert(views(r@) =~= self@.spec_passes());
        }
        r
    }

    /// Whether there is a picture to draw; without one the output stays black.
    pub fn has_picture(&self) -> (r: bool)
        ensures
            r == (self@.video is Some),
    {
        self.video.is_some()
    }

    /// Takes in a frame: tells how it gets to the GPU, and notes the texture
    /// that then holds it.
    pub fn upload_frame(&mut self, frame: &DecodedFrame) -> (r: UploadPlan)
        requires
            frame.pixels is Bc ==> frame.w <= MAX_SIDE && frame.h <= MAX_SIDE,
        ensures
            r == plan_for(old(self)@.video, *frame),
            final(self)@ == (RendererModel { video: Some(r.texture), ..old(self)@ }),
    {
        let (texture, main) = match &frame.pixels {
            PixelData::Bc { format, alpha, .. } => {
                let t = VideoTexture {
                    format: texture_format(*format),
                    w: pad(frame.w),
                    h: pad(frame.h),
                    has_alpha: alpha.is_some(),
                };
                (t, layout_blocks(*format, t.w, t.h))
            },
            PixelData::Rgba { stride, .. } => (
                VideoTexture { format: TextureFormat::Rgba8Unorm, w: frame.w, h: frame.h, has_alpha: false },
                UploadLayout { bytes_per_row: *stride as u64, rows: frame.h },
            ),
        };
        let fits = match &self.video {
            Some(v) => *v == texture,
            None => false,
        };
        let alpha = if texture.has_alpha {
            Some(layout_blocks(HapTextureFormat::Bc4, texture.w, texture.h))
        } else {
            None
        };
        self.video = Some(texture);
        UploadPlan { create: !fits, texture, main, alpha }
    }
}

proof fn pinning_keeps_ids_apart(m: RendererModel, name: Seq<char>)
    requires
        m.wf(),
        m.next_pool_id < u32::MAX,
    ensures
        m.pinned(name).wf(),
{
    let after = m.pinned(name);
    assert forall|i: int, j: int| 0 <= i < j < after.pool.len() implies #[trigger] after.pool[i].id
        != #[trigger] after.pool[j].id by {
        assert(after.pool[i] == m.pool[i]);
        if j < m.pool.len() {
            assert(after.pool[j] == m.pool[j]);
        }
    }
    assert forall|i: int| 0 <= i < after.pool.len() implies #[trigger] after.pool[i].id < after.next_pool_id by {
        if i < m.pool.len() {
            assert(after.pool[i] == m.pool[i]);
        }
    }
}

proof fn kept_ids_stay_apart(s: Seq<PooledShaderModel>, id: ShaderId, below: ShaderId)
    requires
        forall|i: int| 0 <= i < s.len() ==> #[trigger] s[i].id < below,
        forall|i: int, j: int| 0 <= i < j < s.len() ==> #[trigger] s[i].id != #[trigger] s[j].id,
    ensures
        forall|i: int|
            0 <= i < kept(s, is_other_pin(id)).len() ==> #[trigger] kept(s, is_other_pin(id))[i].id < below,
        forall|i: int, j: int|
            0 <= i < j < kept(s, is_other_pin(id)).len() ==> #[trigger] kept(s, is_other_pin(id))[i].id
                != #[trigger] kept(s, is_other_pin(id))[j].id,
        forall|i: int| 0 <= i < kept(s, is_other_pin(id)).len() ==> s.contains(#[trigger] kept(s, is_other_pin(id))[i]),
    decreases s.len(),
{
    if s.len() > 0 {
        let front = s.drop_last();
        assert forall|i: int| 0 <= i < front.len() implies #[trigger] front[i].id < below by {
            assert(s[i] == front[i]);
        }
        assert forall|i: int, j: int| 0 <= i < j < front.len() implies #[trigger] front[i].id
            != #[trigger] front[j].id by {
            assert(s[i] == front[i] && s[j] == front[j]);
        }
        kept_ids_stay_apart(front, id, below);
        let k = kept(front, is_other_pin(id));
        let all = kept(s, is_other_pin(id));
        assert forall|i: int| 0 <= i < k.len() implies s.contains(#[trigger] k[i]) && k[i].id != s.last().id by {
            assert(front.contains(k[i]));
            let m = front.index_of(k[i]);
            assert(s[m] == k[i]);
            assert(s[m].id != s[s.len() - 1].id);
        }
        assert(s.contains(s[s.len() - 1]));
        assert forall|i: int| 0 <= i < all.len() implies s.contains(#[trigger] all[i]) && all[i].id < below by {
            if i < k.len() {
                assert(all[i] == k[i]);
            } else {
                assert(all[i] == s[s.len() - 1]);
            }
        }
        assert forall|i: int, j: int| 0 <= i < j < all.len() implies #[trigger] all[i].id != #[trigger] all[j].id by {
            assert(all[i] == k[i]);
            if j < k.len() {
                assert(all[j] == k[j]);
            }
        }
    }
}

proof fn unpinning_keeps_ids_apart(m: RendererModel, id: ShaderId)
    requires
        m.wf(),
    ensures
        m.unpinned(id).wf(),
{
    kept_ids_stay_apart(m.pool, id, m.next_pool_id);
}

/// A shader that does not compile changes neither what draws nor what can be
/// pinned; one that does compile draws from then on, unless a pin stands in.
pub proof fn a_broken_shader_keeps_the_last_good(
    m: RendererModel,
    src: Seq<char>,
    lang: ShaderLang,
    message: Seq<char>,
)
    ensures
        m.compiled(src, lang, Err(message)).draws_with() == m.draws_with(),
        m.compiled(src, lang, Err(message)).last_good == m.last_good,
        m.compiled(src, lang, Err(message)).shader_error == Some(message),
        m.active_override is None ==> m.compiled(src, lang, Ok(())).draws_with() == DrawWith::Live,
        m.compiled(src, lang, Ok(())).shader_error is None,
{
}

/// A pinned shader draws when it is picked, whatever becomes of the live one,
/// until it is dropped; then the live shader draws again.
pub proof fn a_pin_outlives_the_live_shader(
    m: RendererModel,
    name: Seq<char>,
    src: Seq<char>,
    lang: ShaderLang,
    outcome: Result<(), Seq<char>>,
)
    requires
        m.wf(),
        m.next_pool_id < u32::MAX,
        m.last_good is Some,
    ensures
        ({
            let id = m.next_pool_id;
            let picked = RendererModel { active_override: Some(id), ..m.pinned(name) };
            &&& picked.draws_with() == DrawWith::Pinned(id)
            &&& picked.compiled(src, lang, outcome).draws_with() == DrawWith::Pinned(id)
            &&& picked.unpinned(id).draws_with() == DrawWith::Live
        }),
{
    let id = m.next_pool_id;
    let p = m.pinned(name).pool;
    assert(p[m.pool.len() as int].id == id);
    first_at_bounds(p, is_pin(id));
    if first_at(p, is_pin(id)) == p.len() {
        assert(!is_pin(id)(p[m.pool.len() as int]));
    }
}

/// A dropped pin is gone: its id names no shader of the pool, so no pass draws
/// with it, even when it is picked again or an effect chain still names it.
pub proof fn a_dropped_pin_never_draws(m: RendererModel, id: ShaderId, chain: Seq<ChainSlotModel>, k: int)
    ensures
        ({
            let after = RendererModel { active_override: Some(id), chain, ..m.unpinned(id) };
            &&& after.draws_with() != DrawWith::Pinned(id)
            &&& 0 <= k < after.spec_passes().len() ==> after.spec_passes()[k].program != ProgramModel::Shader(
                DrawWith::Pinned(id),
            )
        }),
{
    let rest = kept(m.pool, is_other_pin(id));
    kept_satisfies(m.pool, is_other_pin(id));
    assert forall|j: int| 0 <= j < rest.len() implies !is_pin(id)(#[trigger] rest[j]) by {
        assert(is_other_pin(id)(rest[j]));
    }
    first_at_is(rest, is_pin(id), rest.len() as int);
}

/// Each stage of an effect chain feeds the next: the picture is drawn first as
/// it is, every later pass reads the one before it, and the last stage shows.
/// Without a chain there is one pass, drawn by the live shader once it has
/// compiled and no pin stands in for it.
pub proof fn stages_feed_each_other(m: RendererModel, k: int)
    requires
        m.chain.len() <= usize::MAX,
    ensures
        m.spec_passes()[0].prev == PassInput::Picture,
        m.chain.len() == 0 ==> m.spec_passes().len() == 1,
        m.chain.len() == 0 && m.active_override is None && m.last_good is Some ==> m.spec_passes()[0].program
            == ProgramModel::Shader(DrawWith::Live),
        m.chain.len() > 0 ==> m.spec_passes().len() == m.chain.len() + 1,
        m.chain.len() > 0 ==> m.spec_passes()[0].program == ProgramModel::Shader(DrawWith::Passthrough),
        0 < k < m.spec_passes().len() ==> m.spec_passes()[k].program == m.program_of(m.chain[k - 1].shader)
            && m.spec_passes()[k].prev == PassInput::Pass((k - 1) as usize) && (k - 1) as usize == k - 1,
{
}

/// A frame is not uploaded into a new texture when the one before it needed the
/// same texture, whatever sides its blocks are padded from.
pub proof fn a_steady_clip_keeps_its_texture(a: DecodedFrame, b: DecodedFrame, current: Option<VideoTexture>)
    requires
        texture_for(a) == texture_for(b),
    ensures
        !plan_for(Some(plan_for(current, a).texture), b).create,
{
}

/// A block with the bands of a spectrum at its front.
pub open spec fn with_bands(freqs: Seq<Single>, bands: Seq<Single>) -> Seq<Single> {
    bands + freqs.skip(bands.len() as int)
}

/// Puts the bands of a spectrum at the front of the block that shaders read
/// them from, four to a row.
pub fn set_bands(freqs: &mut Vec<Single>, bands: &Vec<Single>)
    requires
        bands@.len() <= old(freqs)@.len(),
    ensures
        final(freqs)@ == with_bands(old(freqs)@, bands@),
{
    let ghost before = freqs@;
    let mut i: usize = 0;
    while i < bands.len()
        invariant
            i <= bands@.len() <= before.len(),
            freqs@.len() == before.len(),
            forall|j: int| 0 <= j < i ==> #[trigger] freqs@[j] == bands@[j],
            forall|j: int| i <= j < before.len() ==> #[trigger] freqs@[j] == before[j],
        decreases bands@.len() - i,
    {
        freqs[i] = bands[i];
        i += 1;
    }
    proof {
        assert(freqs@ =~= bands@ + before.skip(bands@.len() as int));
    }
}

/// Where shaders see the beat grid.
#[derive(Clone, Copy, Debug, PartialEq, Eq, Structural)]
pub struct BeatUniforms {
    /// The beat, wrapped so that it keeps its precision.
    pub beat: MicroBeats,
    /// Position within the bar, as a ratio.
    pub bar_phase: Micro,
    /// Position within the phrase, as a ratio.
    pub phrase_phase: Micro,
}

/// The beat count at which [`BeatUniforms::beat`] wraps.
pub const BEAT_WRAP: MicroBeats = 16_384_000_000;

/// What shaders see of the beat grid at a snapshot of the clock.
pub open spec fn uniforms_at(snap: ClockSnapshot, phrase: MicroBeats) -> BeatUniforms {
    BeatUniforms {
        beat: (snap.beat as int % BEAT_WRAP as int) as MicroBeats,
        bar_phase: (snap.phase * 1_000_000 / snap.quantum as int) as Micro,
        phrase_phase: (snap.beat as int % phrase as int * 1_000_000 / phrase as int) as Micro,
    }
}

/// What shaders see of the beat grid at a snapshot of the clock.
pub fn beat_uniforms(snap: &ClockSnapshot, phrase: MicroBeats) -> (r: BeatUniforms)
    requires
        snap.quantum > 0,
        0 <= snap.phase <= snap.quantum,
        phrase > 0,
    ensures
        r == uniforms_at(*snap, phrase),
        0 <= r.bar_phase <= 1_000_000,
        0 <= r.phrase_phase < 1_000_000,
{
    let within: i64 = floor_mod(snap.beat, phrase);
    let bar: i128 = snap.phase as i128 * 1_000_000 / snap.quantum as i128;
    let part: i128 = within as i128 * 1_000_000 / phrase as i128;
    proof {
        ratio_bounds(snap.phase as int, snap.quantum as int);
        ratio_bounds(within as int, phrase as int);
    }
    BeatUniforms {
        beat: floor_mod(snap.beat, BEAT_WRAP),
        bar_phase: bar as i64,
        phrase_phase: part as i64,
    }
}

proof fn ratio_bounds(x: int, d: int)
    requires
        0 <= x <= d,
        d > 0,
    ensures
        0 <= x * 1_000_000 / d <= 1_000_000,
        x < d ==> x * 1_000_000 / d < 1_000_000,
{
    let q = x * 1_000_000 / d;
    vstd::arithmetic::div_mod::lemma_fundamental_div_mod(x * 1_000_000, d);
    assert(0 <= q <= 1_000_000 && (x < d ==> q < 1_000_000)) by (nonlinear_arith)
        requires
            x * 1_000_000 == d * q + (x * 1_000_000) % d,
            0 <= (x * 1_000_000) % d < d,
            0 <= x <= d,
            d > 0,
    ;
}

} // verus!
