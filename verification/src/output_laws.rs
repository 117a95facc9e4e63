//! What reaches the screen: the texture a frame is uploaded to, what each pass
//! draws with, what shaders are told of the beat, and where windows and the
//! audio analysis stand.

use vstd::prelude::*;

use crate::analysis::{band_of, hop_of, slid, step_with, width_of};
use crate::clock::ClockSnapshot;
use crate::commands::{ShaderId, SlotRefModel};
use crate::gfx::{action_on, at_least_one, chosen_format, chosen_monitor, is_plain, redrawn, SurfaceSize, SurfaceStatus};
use crate::hap::{frame_of, hex, section_of, short_len, HapError};
use crate::paths::names;
use crate::render::{
    is_other_pin, is_pin, plan_for, uniforms_at, with_bands, DrawWith, PooledShaderModel, ProgramModel, RendererModel,
    ShaderLang, TextureFormat, VideoTexture,
};
use crate::seqs::{first_at, first_at_bounds, kept};
use crate::shaderwatch::{concerns, ends_in, EventKind};
use crate::units::{MicroBeats, Single};
use crate::video::{DecodedFrame, HapTextureFormat};

verus! {

/// What shaders see of the beat is the beat, wrapped after 16384 beats, and the
/// parts of the bar and of the phrase that are over, in millionths and rounded
/// down.
pub proof fn shaders_see_the_beat(snap: ClockSnapshot, phrase: MicroBeats)
    requires
        snap.quantum > 0,
        0 <= snap.phase < snap.quantum,
        phrase > 0,
    ensures
        ({
            let u = uniforms_at(snap, phrase);
            let into = snap.beat as int % phrase as int;
            &&& 0 <= u.beat < 16_384_000_000
            &&& (snap.beat - u.beat) % 16_384_000_000 == 0
            &&& 0 <= u.bar_phase < 1_000_000
            &&& u.bar_phase * snap.quantum <= snap.phase * 1_000_000 < (u.bar_phase + 1) * snap.quantum
            &&& 0 <= u.phrase_phase < 1_000_000
            &&& u.phrase_phase * phrase <= into * 1_000_000 < (u.phrase_phase + 1) * phrase
        }),
{
    let (p, q) = (snap.phase as int, snap.quantum as int);
    let (into, l) = (snap.beat as int % phrase as int, phrase as int);
    part_of(p, q);
    part_of(into, l);
}

proof fn part_of(p: int, q: int)
    requires
        0 <= p < q,
    ensures
        0 <= p * 1_000_000 / q < 1_000_000,
        (p * 1_000_000 / q) * q <= p * 1_000_000 < (p * 1_000_000 / q + 1) * q,
{
    let n = p * 1_000_000;
    let d = n / q;
    assert(0 <= n - d * q < q && 0 <= d < 1_000_000) by (nonlinear_arith)
        requires
            0 <= p < q,
            n == p * 1_000_000,
            d == n / q,
    ;
    assert((d + 1) * q == d * q + q) by (nonlinear_arith);
}

/// The side of a texture of four-by-four blocks that holds `side` pixels.
pub open spec fn blocks_over(t: int, side: int) -> bool {
    t % 4 == 0 && side <= t < side + 4
}

/// A frame of blocks goes into a texture of its own format, as large as the
/// frame and up to the next whole block; a row of bytes holds one row of
/// blocks, of eight bytes for BC1 and sixteen for BC3 and BC7, and there is a
/// row for every four lines. A separate alpha plane has its own, of eight bytes
/// per block.
pub proof fn blocks_fill_their_texture(current: Option<VideoTexture>, frame: DecodedFrame)
    requires
        frame.pixels is Bc,
        frame.w <= 0xffff_fffc,
        frame.h <= 0xffff_fffc,
    ensures
        ({
            let plan = plan_for(current, frame);
            let t = plan.texture;
            let format = frame.pixels->format;
            &&& blocks_over(t.w as int, frame.w as int)
            &&& blocks_over(t.h as int, frame.h as int)
            &&& plan.main.rows * 4 == t.h
            &&& plan.main.bytes_per_row * 4 == t.w * (if format == HapTextureFormat::Bc1 || format
                == HapTextureFormat::Bc4 {
                8int
            } else {
                16int
            })
            &&& t.format == (match format {
                HapTextureFormat::Bc1 => TextureFormat::Bc1RgbaUnorm,
                HapTextureFormat::Bc3 => TextureFormat::Bc3RgbaUnorm,
                HapTextureFormat::Bc3YCoCg => TextureFormat::Bc3RgbaUnorm,
                HapTextureFormat::Bc4 => TextureFormat::Bc4RUnorm,
                HapTextureFormat::Bc7 => TextureFormat::Bc7RgbaUnorm,
            })
            &&& t.has_alpha == (frame.pixels->alpha is Some)
            &&& plan.alpha is Some == (frame.pixels->alpha is Some)
            &&& plan.alpha is Some ==> plan.alpha->0.rows * 4 == t.h && plan.alpha->0.bytes_per_row * 4 == t.w * 8
        }),
{
}

/// A frame of plain pixels goes into a texture of its very size, line by line
/// with the bytes that a line takes.
pub proof fn pixels_fill_their_texture(current: Option<VideoTexture>, frame: DecodedFrame)
    requires
        frame.pixels is Rgba,
    ensures
        ({
            let plan = plan_for(current, frame);
            &&& plan.texture == (VideoTexture {
                format: TextureFormat::Rgba8Unorm,
                w: frame.w,
                h: frame.h,
                has_alpha: false,
            })
            &&& plan.main.rows == frame.h
            &&& plan.main.bytes_per_row == frame.pixels->stride
            &&& plan.alpha is None
        }),
{
}

/// A texture is made just when there is none, or the one there differs from
/// what the frame needs.
pub proof fn textures_are_made_when_needed(current: Option<VideoTexture>, frame: DecodedFrame)
    ensures
        plan_for(current, frame).create <==> current != Some(plan_for(current, frame).texture),
        !plan_for(Some(plan_for(current, frame).texture), frame).create,
{
}

/// Whether a shader with this id is pinned.
pub open spec fn holds_pin(m: RendererModel, id: ShaderId) -> bool {
    exists|i: int| 0 <= i < m.pool.len() && (#[trigger] m.pool[i]).id == id
}

/// What draws when `pick` is asked for: the pinned shader, where it is still
/// pinned; the live one otherwise, once it has compiled; the picture alone
/// before that.
pub open spec fn drawn_by(m: RendererModel, pick: Option<ShaderId>, by: DrawWith) -> bool {
    &&& pick is Some && holds_pin(m, pick->0) ==> by == DrawWith::Pinned(pick->0)
    &&& (pick is None || !holds_pin(m, pick->0)) && m.last_good is Some ==> by == DrawWith::Live
    &&& (pick is None || !holds_pin(m, pick->0)) && m.last_good is None ==> by == DrawWith::Passthrough
}

proof fn pins_draw(m: RendererModel, pick: Option<ShaderId>)
    ensures
        drawn_by(m, pick, m.drawn(pick)),
{
    if pick is Some {
        let id = pick->0;
        first_at_bounds(m.pool, is_pin(id));
        let at = first_at(m.pool, is_pin(id));
        if holds_pin(m, id) {
            let i = choose|i: int| 0 <= i < m.pool.len() && (#[trigger] m.pool[i]).id == id;
            assert(is_pin(id)(m.pool[i]));
        } else if at < m.pool.len() {
            assert(is_pin(id)(m.pool[at]));
            assert(m.pool[at].id == id);
        }
    }
}

/// Each stage of a chain draws with what its slot names: an effect of that
/// name, an effect file at that path, the pinned shader with that id, or the
/// shader that draws outside chains. Without a chain that one draws alone.
pub proof fn stages_draw_what_they_name(m: RendererModel, k: int)
    requires
        0 <= k < m.chain.len() <= usize::MAX,
    ensures
        ({
            let by = m.spec_passes()[k + 1].program;
            match m.chain[k].shader {
                SlotRefModel::Builtin(name) => by == ProgramModel::Builtin(name),
                SlotRefModel::Isf(path) => by == ProgramModel::Isf(path),
                SlotRefModel::Pinned(id) => by is Shader && drawn_by(m, Some(id), by->Shader_0),
                SlotRefModel::Live => by is Shader && drawn_by(m, m.active_override, by->Shader_0),
            }
        }),
{
    match m.chain[k].shader {
        SlotRefModel::Pinned(id) => pins_draw(m, Some(id)),
        _ => pins_draw(m, m.active_override),
    }
}

/// Without a chain the picked shader draws the picture.
pub proof fn the_picked_shader_draws_alone(m: RendererModel)
    requires
        m.chain.len() == 0,
    ensures
        m.spec_passes()[0].program is Shader,
        drawn_by(m, m.active_override, m.spec_passes()[0].program->Shader_0),
{
    pins_draw(m, m.active_override);
}

/// A shader that compiles becomes the last good one, and only the error goes
/// beside it; one that does not leaves its message and everything else.
pub proof fn a_compile_is_taken_note_of(m: RendererModel, src: Seq<char>, lang: ShaderLang, message: Seq<char>)
    ensures
        ({
            let good = m.compiled(src, lang, Ok(()));
            let bad = m.compiled(src, lang, Err(message));
            &&& good.last_good == Some((src, lang))
            &&& good.shader_error is None
            &&& bad.last_good == m.last_good
            &&& bad.shader_error == Some(message)
            &&& good.pool == m.pool && bad.pool == m.pool
            &&& good.active_override == m.active_override && bad.active_override == m.active_override
            &&& good.chain == m.chain && bad.chain == m.chain
            &&& good.video == m.video && bad.video == m.video
            &&& good.next_pool_id == m.next_pool_id && bad.next_pool_id == m.next_pool_id
        }),
{
}

/// A new pin comes behind the others under the name it was given; the pins
/// that were there stay as they were.
pub proof fn a_new_pin_comes_last(m: RendererModel, name: Seq<char>)
    requires
        m.wf(),
        m.next_pool_id < u32::MAX,
    ensures
        ({
            let after = m.pinned(name);
            &&& after.pool.len() == m.pool.len() + 1
            &&& forall|i: int| 0 <= i < m.pool.len() ==> #[trigger] after.pool[i] == m.pool[i]
            &&& after.pool.last().name == name
            &&& !holds_pin(m, after.pool.last().id)
            &&& after.next_pool_id > after.pool.last().id
            &&& after.last_good == m.last_good && after.shader_error == m.shader_error
            &&& after.active_override == m.active_override
            &&& after.chain == m.chain && after.video == m.video
        }),
{
}

proof fn kept_loses_only(s: Seq<PooledShaderModel>, id: ShaderId, x: PooledShaderModel)
    ensures
        kept(s, is_other_pin(id)).contains(x) <==> s.contains(x) && x.id != id,
    decreases s.len(),
{
    if s.len() > 0 {
        kept_loses_only(s.drop_last(), id, x);
        let before = kept(s.drop_last(), is_other_pin(id));
        let after = kept(s, is_other_pin(id));
        if s.contains(x) {
            let i = choose|i: int| 0 <= i < s.len() && s[i] == x;
            if i < s.len() - 1 {
                assert(s.drop_last()[i] == x);
            }
        }
        if s.drop_last().contains(x) {
            let i = choose|i: int| 0 <= i < s.drop_last().len() && s.drop_last()[i] == x;
            assert(s[i] == x);
        }
        if s.last().id != id {
            assert(after == before.push(s.last()));
            assert(after.last() == s.last());
            if before.contains(x) {
                let i = choose|i: int| 0 <= i < before.len() && before[i] == x;
                assert(after[i] == x);
            }
            if after.contains(x) {
                let i = choose|i: int| 0 <= i < after.len() && after[i] == x;
                if i < before.len() {
                    assert(before[i] == x);
                }
            }
            if x == s.last() {
                assert(after[before.len() as int] == x);
            }
        } else {
            assert(after == before);
        }
    }
}

/// Dropping a pin takes that one alone, and with it the override if it was
/// the one picked.
pub proof fn only_the_dropped_pin_goes(m: RendererModel, id: ShaderId, x: PooledShaderModel)
    ensures
        ({
            let after = m.unpinned(id);
            &&& after.pool.contains(x) <==> m.pool.contains(x) && x.id != id
            &&& m.active_override == Some(id) ==> after.active_override is None
            &&& m.active_override != Some(id) ==> after.active_override == m.active_override
            &&& after.next_pool_id == m.next_pool_id
            &&& after.last_good == m.last_good && after.shader_error == m.shader_error
            &&& after.chain == m.chain && after.video == m.video
        }),
{
    kept_loses_only(m.pool, id, x);
}

/// The bands of a spectrum come first in the block, in their order, and what
/// stood behind them stays.
pub proof fn bands_come_first(freqs: Seq<Single>, bands: Seq<Single>, i: int)
    requires
        bands.len() <= freqs.len(),
        0 <= i < freqs.len(),
    ensures
        with_bands(freqs, bands).len() == freqs.len(),
        i < bands.len() ==> with_bands(freqs, bands)[i] == bands[i],
        i >= bands.len() ==> with_bands(freqs, bands)[i] == freqs[i],
{
}

/// The surface takes the first format on offer that is not sRGB; where all are
/// sRGB it takes the first.
pub proof fn surfaces_avoid_srgb(srgb: Seq<bool>)
    requires
        srgb.len() > 0,
    ensures
        ({
            let at = chosen_format(srgb);
            &&& 0 <= at < srgb.len()
            &&& (exists|i: int| 0 <= i < srgb.len() && !#[trigger] srgb[i]) ==> !srgb[at]
            &&& forall|i: int| 0 <= i < at ==> #[trigger] srgb[i]
        }),
{
    first_at_bounds(srgb, is_plain());
    let at = first_at(srgb, is_plain());
    assert forall|i: int| 0 <= i < at implies #[trigger] srgb[i] by {
        assert(!is_plain()(srgb[i]));
    }
    if at < srgb.len() {
        assert(is_plain()(srgb[at]));
    }
}

/// The monitor that was asked for is taken if it is connected, and none if it
/// is not. Unasked, the output leaves the primary one to the controls wherever
/// there is another, and takes the first such.
pub proof fn the_output_leaves_the_primary_monitor(count: int, primary: Option<usize>, asked: Option<usize>)
    requires
        0 <= count,
        primary is Some ==> primary->0 < count,
    ensures
        ({
            let got = chosen_monitor(count, primary, asked);
            &&& asked is Some && asked->0 < count ==> got == asked
            &&& asked is Some && asked->0 >= count ==> got is None
            &&& asked is None && (exists|i: usize| #![auto] i < count && primary != Some(i)) ==> {
                &&& got is Some && got->0 < count
                &&& got != primary
                &&& forall|i: usize| #![auto] i < got->0 ==> primary == Some(i)
            }
            &&& asked is None && count == 1 && primary is Some ==> got == primary
            &&& asked is None && count == 0 ==> got is None
        }),
{
    if asked is None && (exists|i: usize| #![auto] i < count && primary != Some(i)) {
        let i = choose|i: usize| #![auto] i < count && primary != Some(i);
        assert(i < count);
    }
}

/// A surface has an area: a side that is given is kept, one of zero becomes
/// one, and a window without an area changes nothing.
pub proof fn surfaces_follow_their_window(s: SurfaceSize, width: u32, height: u32)
    ensures
        at_least_one(width) > 0,
        width > 0 ==> at_least_one(width) == width,
        width == 0 ==> at_least_one(width) == 1,
        width > 0 && height > 0 ==> s.resized(width, height).width == width && s.resized(width, height).height
            == height,
        width == 0 || height == 0 ==> s.resized(width, height) == s,
{
}

/// A picture is drawn when the surface hands one out. A surface that no longer
/// fits is set up again, one that has nothing yet is left for the next time,
/// and only a fault is reported.
pub proof fn surfaces_are_answered(status: SurfaceStatus)
    ensures
        action_on(status) is Draw <==> status is Success || status is Suboptimal,
        action_on(status) is Reconfigure <==> status is Outdated || status is Lost,
        action_on(status) is Skip <==> status is Timeout || status is Occluded,
        action_on(status) is Report <==> status is Validation,
{
}

/// A window is drawn just when it shows, and the loop rests when none does.
pub proof fn windows_that_show_are_drawn(output_occluded: bool, control_occluded: bool)
    ensures
        ({
            let plan = redrawn(output_occluded, control_occluded);
            &&& plan.output != output_occluded
            &&& plan.control != control_occluded
            &&& plan.rest <==> !plan.output && !plan.control
        }),
{
}

/// The analysis runs sixty times a second: its hop is the largest that comes
/// round that often, and 64 samples where that would be less.
pub proof fn analysis_keeps_up_with_the_picture(sample_rate: int)
    requires
        0 <= sample_rate,
    ensures
        hop_of(sample_rate) >= 64,
        sample_rate >= 3840 ==> hop_of(sample_rate) * 60 <= sample_rate < (hop_of(sample_rate) + 1) * 60,
        sample_rate < 3840 ==> hop_of(sample_rate) == 64,
{
}

/// A band holds the bins between its edges, save the constant one and those
/// past half the transform; with edges on one bin it holds that bin.
pub proof fn bands_hold_the_bins_between(lo: int, hi: int, k: int)
    requires
        0 <= lo,
        1 <= k < 1024,
    ensures
        lo < hi ==> (band_of(lo, hi).0 <= k < band_of(lo, hi).1 <==> lo <= k < hi),
        hi <= lo ==> (band_of(lo, hi).0 <= k < band_of(lo, hi).1 <==> k == lo),
        lo < hi ==> width_of(lo, hi) == hi - lo,
        hi <= lo ==> width_of(lo, hi) == 1,
{
}

/// An analysis runs once a hop of samples waits, and the window then ends with
/// the fresh samples, before them the newest of those it held.
pub proof fn the_window_slides_over_the_samples<T>(window: Seq<T>, fresh: Seq<T>, i: int, waiting: usize, hop: usize)
    requires
        fresh.len() <= window.len(),
        0 <= i < window.len(),
    ensures
        step_with(None, hop) is AwaitSource,
        step_with(Some(waiting), hop) is Analyse <==> waiting >= hop,
        step_with(Some(waiting), hop) is AwaitSamples <==> waiting < hop,
        slid(window, fresh).len() == window.len(),
        i + fresh.len() < window.len() ==> slid(window, fresh)[i] == window[i + fresh.len()],
        i + fresh.len() >= window.len() ==> slid(window, fresh)[i] == fresh[i + fresh.len() - window.len()],
{
}

/// A change is noticed just when a file of the shader's name was created or
/// written, in whatever directory the event names it.
pub proof fn changes_are_noticed_by_name(target: Seq<char>, kind: EventKind, paths: Seq<String>)
    requires
        target != seq!['.', '.'],
    ensures
        concerns(target, kind, paths) <==> !(kind is Other) && exists|i: int|
            #![trigger paths[i]]
            0 <= i < paths.len() && names(paths[i]@).len() > 0 && names(paths[i]@).last() == target,
{
    if concerns(target, kind, paths) {
        let i = choose|i: int|
            0 <= i < paths.len() && ends_in(#[trigger] paths[i]@, target);
        assert(names(paths[i]@).last() == target);
    }
}

/// The four bytes that open a section of up to three bytes' worth of length.
pub open spec fn headed(kind: u8, body: Seq<u8>) -> Seq<u8> {
    let n = body.len() as int;
    seq![(n % 256) as u8, (n / 256 % 256) as u8, (n / 65536) as u8, kind] + body
}

/// A section that was written is read back with its type and contents, and
/// what comes behind it is left for the next one.
pub proof fn sections_are_read_in_turn(kind: u8, body: Seq<u8>, rest: Seq<u8>)
    requires
        0 < body.len() < 0x100_0000,
    ensures
        section_of(headed(kind, body) + rest) == Some((kind, body, rest)),
{
    let n = body.len() as int;
    let b = headed(kind, body) + rest;
    assert(b[0] == (n % 256) as u8 && b[1] == (n / 256 % 256) as u8 && b[2] == (n / 65536) as u8 && b[3] == kind);
    assert(0 <= n / 65536 < 256);
    assert(short_len(b, 0) == n);
    assert(b.subrange(4, 4 + n) =~= body);
    assert(b.skip(4 + n) =~= rest);
}

/// A section's type says which blocks it holds, and whether its colours are
/// kept as luma and chroma; of other types a frame is refused by name.
pub proof fn section_types_name_their_blocks(kind: u8, body: Seq<u8>)
    requires
        0 < body.len() < 0x100_0000,
    ensures
        ({
            let r = frame_of(headed(kind, body), 1);
            &&& r is Ok ==> r->Ok_0.data == body && r->Ok_0.alpha is None
            &&& r is Ok <==> (kind == 0xAB || kind == 0xAE || kind == 0xAF || kind == 0xA1 || kind == 0xAC)
            &&& r is Err ==> r->Err_0 == HapError::Unsupported(kind)
            &&& kind == 0xAB ==> r->Ok_0.format is Bc1 && r->Ok_0.video_mode == 0
            &&& kind == 0xAE ==> r->Ok_0.format is Bc3 && r->Ok_0.video_mode == 0
            &&& kind == 0xAF ==> r->Ok_0.format is Bc3YCoCg && r->Ok_0.video_mode == 1
            &&& kind == 0xA1 ==> r->Ok_0.format is Bc4 && r->Ok_0.video_mode == 0
            &&& kind == 0xAC ==> r->Ok_0.format is Bc7 && r->Ok_0.video_mode == 0
        }),
{
    sections_are_read_in_turn(kind, body, seq![]);
    assert(headed(kind, body) + seq![] =~= headed(kind, body));
}

/// A frame of two textures gives back its colours and its alpha plane, in the
/// shader mode for a separate plane.
pub proof fn colours_and_alpha_are_read_apart(kind: u8, colour: Seq<u8>, alpha: Seq<u8>)
    requires
        0 < colour.len(),
        0 < alpha.len(),
        colour.len() + alpha.len() < 0x100_0000 - 8,
        kind == 0xAB || kind == 0xAE || kind == 0xAF || kind == 0xA1 || kind == 0xAC,
    ensures
        ({
            let r = frame_of(headed(0x0D, headed(kind, colour) + headed(0xA1, alpha)), 2);
            let alone = frame_of(headed(kind, colour), 2);
            &&& r is Ok && alone is Ok
            &&& r->Ok_0.data == colour
            &&& r->Ok_0.alpha == Some(alpha)
            &&& r->Ok_0.format == alone->Ok_0.format
            &&& r->Ok_0.video_mode == alone->Ok_0.video_mode + 2
        }),
{
    let inner = headed(kind, colour) + headed(0xA1, alpha);
    sections_are_read_in_turn(0x0D, inner, seq![]);
    assert(headed(0x0D, inner) + seq![] =~= headed(0x0D, inner));
    sections_are_read_in_turn(kind, colour, headed(0xA1, alpha));
    sections_are_read_in_turn(0xA1, alpha, seq![]);
    assert(headed(0xA1, alpha) + seq![] =~= headed(0xA1, alpha));
    sections_are_read_in_turn(kind, colour, seq![]);
    assert(headed(kind, colour) + seq![] =~= headed(kind, colour));
}

/// A section that cannot be read is named by its type in two digits of base sixteen,
/// which stand for it.
pub proof fn section_types_are_written_in_base_sixteen(kind: u8, n: int)
    ensures
        HapError::Unsupported(kind).spec_message().len() == HapError::Unsupported(0).spec_message().len(),
        ({
            let s = HapError::Unsupported(kind).spec_message();
            &&& s.last() == hex(kind as int % 16)
            &&& s.drop_last().last() == hex(kind as int / 16)
        }),
        0 <= n < 10 ==> hex(n) as int == 48 + n,
        10 <= n < 16 ==> hex(n) as int == 97 + (n - 10),
{
}

} // verus!
