//! The animation manager: the per-tick state machine that picks the next
//! variation, schedules cross-blends, resolves aliases, advances the shared
//! global-sequence clocks and resamples every owned track into dense
//! output buffers.
//!
//! The whole tick is modelled by the spec function `tick_step` over a
//! `TickSnap` snapshot of the mutable state, and `update` is proved to
//! realise exactly that function; the playback laws are then proved once
//! over `tick_step`.

use vstd::prelude::*;

use crate::rng::LcgRng;
use crate::rng::lcg_low16;
use crate::rng::lcg_next;
use crate::rng::probability_of;
use crate::rng::repeats_of;
use crate::track::AnimationError;
use crate::track::M2Track;
use crate::track::RawQuat;
use crate::track::RawVec3;
use crate::track::SampleStep;
use crate::track::eval_step_u16_spec;
use crate::track::eval_step_u8_spec;
use crate::track::lerp_u16;
use crate::track::lerp_u8;
use crate::track::sample_track;
use crate::track::track_sample_spec;

verus! {

/// The host's scalar word for one (the identity weight, intensity and
/// scale); the crate treats it as an opaque constant.
pub const WORD_ONE: u32 = 0x3F80_0000;

/// An opaque alpha of full opacity in the model's 15-bit convention.
pub const ALPHA_OPAQUE: u16 = 0x7fff;

/// One sequence descriptor of the registry: duration and repeat policy,
/// selection weight, cross-blend window, and the variation/alias links as
/// plain indices into the registry.
#[derive(Debug, Clone, Copy, PartialEq, Eq, Structural)]
pub struct M2Sequence {
    pub id: u16,
    pub sub_id: u16,
    pub duration: u32,
    pub flags: u32,
    pub frequency: u16,
    pub replay_min: u32,
    pub replay_max: u32,
    pub blend_time: u32,
    pub variation_next: i16,
    pub alias_next: u16,
}

/// One live playback slot: which sequence plays, how many repeats remain,
/// the playhead in milliseconds, and the root of the variation chain the
/// slot was entered from.
#[derive(Debug, Clone, Copy, PartialEq, Eq)]
pub struct AnimationState {
    pub animation_index: Option<usize>,
    pub repeat_times: i32,
    pub animation_time: u64,
    pub main_variation_index: usize,
}

impl AnimationState {
    /// A fresh slot: playhead at zero and, when a sequence is given, the
    /// variation root pinned to it.
    pub fn new(maybe_index: Option<usize>) -> (r: Self)
        ensures
            r == state_new(maybe_index),
    {
        match maybe_index {
            Some(index) => AnimationState {
                animation_index: Some(index),
                repeat_times: 0,
                animation_time: 0,
                main_variation_index: index,
            },
            None => AnimationState {
                animation_index: None,
                repeat_times: 0,
                animation_time: 0,
                main_variation_index: 0,
            },
        }
    }
}

/// What `AnimationState::new` builds.
pub open spec fn state_new(maybe_index: Option<usize>) -> AnimationState {
    match maybe_index {
        Some(index) => AnimationState {
            animation_index: Some(index),
            repeat_times: 0,
            animation_time: 0,
            main_variation_index: index,
        },
        None => AnimationState {
            animation_index: None,
            repeat_times: 0,
            animation_time: 0,
            main_variation_index: 0,
        },
    }
}

/// The three texture-transform tracks of one texture unit.
#[derive(Debug, Clone)]
pub struct M2TextureTransform {
    pub translation: M2Track<RawVec3>,
    pub rotation: M2Track<RawQuat>,
    pub scaling: M2Track<RawVec3>,
}

/// One vertex-color entry: an opaque color track and a 15-bit alpha track.
#[derive(Debug, Clone)]
pub struct M2Color {
    pub color: M2Track<RawVec3>,
    pub alpha: M2Track<u16>,
}

/// One bone: its hierarchy data and its translation, expanded rotation and
/// scaling tracks. The rotation track is mandatory and is the full-width
/// expansion produced at load time, never the compact encoding.
#[derive(Debug, Clone)]
pub struct M2CompBone {
    pub key_bone_id: i32,
    pub flags: u32,
    pub parent_bone: i16,
    pub submesh_id: u16,
    pub bone_name_crc: u32,
    pub translation: M2Track<RawVec3>,
    pub rotation: Option<M2Track<RawQuat>>,
    pub scaling: M2Track<RawVec3>,
    pub pivot: RawVec3,
}

/// One light: its bone attachment, rest position, and parameter tracks.
#[derive(Debug, Clone)]
pub struct M2Light {
    pub bone: i16,
    pub position: RawVec3,
    pub ambient_color: M2Track<RawVec3>,
    pub ambient_intensity: M2Track<u32>,
    pub diffuse_color: M2Track<RawVec3>,
    pub diffuse_intensity: M2Track<u32>,
    pub attenuation_start: M2Track<u32>,
    pub attenuation_end: M2Track<u32>,
    pub visibility: M2Track<u8>,
}

/// A sampled track pair ready for the host: the plan for the current slot,
/// the plan for the queued slot when a cross-blend is in progress, and the
/// blend factor `mix_num / mix_den` that weighs the second plan in
/// (`result = first + (second - first) * mix`).
#[derive(Debug, Clone, Copy)]
pub struct Blended<T> {
    pub first: SampleStep<T>,
    pub second: Option<SampleStep<T>>,
    pub mix_num: u64,
    pub mix_den: u64,
}

/// One resolved vertex-color entry: the color plan and the exact 15-bit
/// alpha (the host divides by `0x7fff`).
#[derive(Debug, Clone, Copy)]
pub struct ColorPlan {
    pub rgb: Blended<RawVec3>,
    pub alpha: u16,
}

// -------------------------------------------------------------------
// The spec-level model of one tick.

/// A snapshot of everything one tick mutates.
#[verifier::ext_equal]
pub struct TickSnap {
    pub current: AnimationState,
    pub next: AnimationState,
    pub rng_state: u32,
    pub gtimes: Seq<u64>,
    pub blend_num: u64,
    pub blend_den: u64,
}

/// Saturating add on 64-bit times: a free-running clock pins at the top of
/// the range instead of wrapping.
pub open spec fn sat_add64(a: u64, b: u64) -> u64 {
    if a + b <= u64::MAX {
        (a + b) as u64
    } else {
        u64::MAX
    }
}

/// Decrement that pins at the bottom of the 32-bit range.
pub open spec fn dec_i32(a: i32) -> i32 {
    if a > i32::MIN {
        (a - 1) as i32
    } else {
        a
    }
}

/// A clock of positive length wraps; a zero-length clock free-runs.
pub open spec fn wrap_time(t: u64, dur: u32) -> u64 {
    if dur > 0 {
        (t % (dur as u64)) as u64
    } else {
        t
    }
}

/// Every global-sequence clock advanced by `delta` and wrapped.
pub open spec fn advanced_gtimes(gtimes: Seq<u64>, gdurs: Seq<u32>, delta: u64) -> Seq<u64> {
    Seq::new(gtimes.len(), |i: int| wrap_time(sat_add64(gtimes[i], delta), gdurs[i]))
}

/// The registry invariants the manager relies on: every variation link and
/// every unresolved-alias link stays inside the registry, and replay
/// bounds are ordered and fit the repeat counter.
pub open spec fn seqs_wf(seqs: Seq<M2Sequence>) -> bool {
    forall|i: int|
        0 <= i < seqs.len() ==> {
            let q = #[trigger] seqs[i];
            &&& q.variation_next > -1 ==> (q.variation_next as int) < seqs.len()
            &&& (q.flags & 0x20 == 0 && q.flags & 0x40 > 0) ==> (q.alias_next as int) < seqs.len()
            &&& q.replay_min <= q.replay_max
            &&& q.replay_max <= 0x7fff_ffff
        }
}

/// The weighted walk along a variation chain: accumulate each visited
/// node's frequency — except the node currently playing, which never
/// counts toward its own reselection — and stop at the first node where
/// the accumulated weight reaches the drawn threshold, or where the chain
/// ends. `fuel` bounds the walk by the registry size, so a cyclic chain
/// (malformed data) ends at the node where the bound runs out.
pub open spec fn variation_walk(
    seqs: Seq<M2Sequence>,
    at: int,
    current: Option<usize>,
    accum: int,
    prob: int,
    fuel: nat,
) -> int
    decreases fuel,
{
    let accum2 = if current == Some(at as usize) {
        accum
    } else {
        accum + seqs[at].frequency
    };
    if accum2 >= prob {
        at
    } else if seqs[at].variation_next <= -1 {
        at
    } else if fuel == 0 {
        at
    } else {
        variation_walk(seqs, seqs[at].variation_next as int, current, accum2, prob, (fuel - 1) as nat)
    }
}

/// The alias chase: while a node is an unresolved alias (`0x40` set,
/// `0x20` clear) follow `alias_next`. `fuel` bounds a cyclic chain.
pub open spec fn alias_walk(seqs: Seq<M2Sequence>, at: int, fuel: nat) -> int
    decreases fuel,
{
    if seqs[at].flags & 0x20 == 0 && seqs[at].flags & 0x40 > 0 {
        if fuel == 0 {
            at
        } else {
            alias_walk(seqs, seqs[at].alias_next as int, (fuel - 1) as nat)
        }
    } else {
        at
    }
}

/// Whether this tick draws a fresh variation: nothing queued, the current
/// variation root has a successor, and no repeats remain.
pub open spec fn selection_applies(seqs: Seq<M2Sequence>, s: TickSnap) -> bool {
    &&& s.next.animation_index is None
    &&& seqs[s.current.main_variation_index as int].variation_next > -1
    &&& s.current.repeat_times <= 0
}

/// Drawing the next variation: one draw for the threshold, the weighted
/// walk from the current variation root, and one draw for the new slot's
/// repeat count. The chain root is preserved across the transition.
pub open spec fn select_next(seqs: Seq<M2Sequence>, s: TickSnap) -> TickSnap {
    let r1 = lcg_next(s.rng_state);
    let prob = probability_of(lcg_low16(r1));
    let chosen = variation_walk(
        seqs,
        s.current.main_variation_index as int,
        s.current.animation_index,
        0,
        prob,
        seqs.len() as nat,
    );
    let r2 = lcg_next(r1);
    let reps = repeats_of(seqs[chosen].replay_min, seqs[chosen].replay_max, lcg_low16(r2));
    TickSnap {
        next: AnimationState {
            animation_index: Some(chosen as usize),
            repeat_times: reps as i32,
            animation_time: 0,
            main_variation_index: s.current.main_variation_index,
        },
        rng_state: r2,
        ..s
    }
}

/// Phase one: the playhead and every global clock advance by `delta`.
pub open spec fn phase_advance(gdurs: Seq<u32>, s: TickSnap, delta: u64) -> TickSnap {
    TickSnap {
        current: AnimationState {
            animation_time: sat_add64(s.current.animation_time, delta),
            ..s.current
        },
        gtimes: advanced_gtimes(s.gtimes, gdurs, delta),
        ..s
    }
}

/// Phase two: queue what plays next — a fresh variation when selection
/// applies, else a repeat of the current clip when repeats remain.
pub open spec fn phase_queue(seqs: Seq<M2Sequence>, s: TickSnap) -> TickSnap {
    if selection_applies(seqs, s) {
        select_next(seqs, s)
    } else if s.current.repeat_times > 0 {
        TickSnap {
            next: AnimationState { repeat_times: (s.current.repeat_times - 1) as i32, ..s.current },
            ..s
        }
    } else {
        s
    }
}

/// Phase three: when a queued clip's blend window has been entered, put
/// the queued playhead in lockstep with how far the window is eaten into
/// and set the blend factor `time_left / blend_time`; otherwise the factor
/// is one.
pub open spec fn phase_blend(seqs: Seq<M2Sequence>, s: TickSnap) -> TickSnap {
    let cur_rec = seqs[s.current.animation_index.unwrap() as int];
    let time_left: int = cur_rec.duration - s.current.animation_time;
    if s.next.animation_index is Some {
        let nidx = s.next.animation_index.unwrap() as int;
        let bt: int = seqs[nidx].blend_time as int;
        if bt > 0 && time_left < bt {
            let overrun: int = bt - time_left;
            let ndur = seqs[nidx].duration;
            let wrapped: int = if ndur > 0 {
                overrun % (ndur as int)
            } else if overrun <= u64::MAX {
                overrun
            } else {
                u64::MAX as int
            };
            TickSnap {
                next: AnimationState { animation_time: wrapped as u64, ..s.next },
                blend_num: if time_left >= 0 {
                    time_left as u64
                } else {
                    0
                },
                blend_den: bt as u64,
                ..s
            }
        } else {
            TickSnap { blend_num: 1, blend_den: 1, ..s }
        }
    } else {
        TickSnap { blend_num: 1, blend_den: 1, ..s }
    }
}

/// Phase four: when the current clip has run out, either promote the
/// queued clip (resolving aliases first, clearing the queue and forcing
/// the blend factor to one) or, with nothing queued, loop in place by
/// wrapping the playhead — a zero-duration clip free-runs.
pub open spec fn phase_commit(seqs: Seq<M2Sequence>, s: TickSnap) -> TickSnap {
    let cur_rec = seqs[s.current.animation_index.unwrap() as int];
    if s.current.animation_time >= cur_rec.duration {
        if s.next.animation_index is Some {
            let resolved = alias_walk(
                seqs,
                s.next.animation_index.unwrap() as int,
                seqs.len() as nat,
            );
            TickSnap {
                current: AnimationState {
                    animation_index: Some(resolved as usize),
                    ..s.next
                },
                next: AnimationState { animation_index: None, ..s.next },
                blend_num: 1,
                blend_den: 1,
                ..s
            }
        } else {
            TickSnap {
                current: AnimationState {
                    repeat_times: dec_i32(s.current.repeat_times),
                    animation_time: wrap_time(s.current.animation_time, cur_rec.duration),
                    ..s.current
                },
                ..s
            }
        }
    } else {
        s
    }
}

/// One whole tick over the snapshot.
pub open spec fn tick_step(seqs: Seq<M2Sequence>, gdurs: Seq<u32>, s: TickSnap, delta: u64) -> TickSnap {
    phase_commit(seqs, phase_blend(seqs, phase_queue(seqs, phase_advance(gdurs, s, delta))))
}

} // verus!

verus! {

/// The manager: the immutable tables, the mutable playback state, and the
/// dense per-frame output buffers that every tick rewrites in full.
#[derive(Debug, Clone)]
pub struct AnimationManager {
    pub global_sequence_durations: Vec<u32>,
    pub global_sequence_times: Vec<u64>,
    pub sequences: Vec<M2Sequence>,
    pub texture_weights: Vec<M2Track<u16>>,
    pub texture_transforms: Vec<M2TextureTransform>,
    pub colors: Vec<M2Color>,
    pub bones: Vec<M2CompBone>,
    pub lights: Vec<M2Light>,
    pub current_animation: AnimationState,
    pub next_animation: AnimationState,
    pub rng: LcgRng,
    pub blend_num: u64,
    pub blend_den: u64,
    pub calculated_transparencies: Vec<u16>,
    pub calculated_colors: Vec<ColorPlan>,
    pub calculated_texture_translations: Vec<Blended<RawVec3>>,
    pub calculated_texture_rotations: Vec<Blended<RawQuat>>,
    pub calculated_texture_scalings: Vec<Blended<RawVec3>>,
    pub calculated_bone_translations: Vec<Blended<RawVec3>>,
    pub calculated_bone_rotations: Vec<Blended<RawQuat>>,
    pub calculated_bone_scalings: Vec<Blended<RawVec3>>,
    pub calculated_light_ambient_colors: Vec<Blended<RawVec3>>,
    pub calculated_light_ambient_intensities: Vec<Blended<u32>>,
    pub calculated_light_diffuse_colors: Vec<Blended<RawVec3>>,
    pub calculated_light_diffuse_intensities: Vec<Blended<u32>>,
    pub calculated_light_attenuation_starts: Vec<Blended<u32>>,
    pub calculated_light_attenuation_ends: Vec<Blended<u32>>,
    pub calculated_light_visibilities: Vec<u8>,
}

/// The mutable-state snapshot of a manager.
pub open spec fn snap_of(m: &AnimationManager) -> TickSnap {
    TickSnap {
        current: m.current_animation,
        next: m.next_animation,
        rng_state: m.rng.state,
        gtimes: m.global_sequence_times@,
        blend_num: m.blend_num,
        blend_den: m.blend_den,
    }
}

impl AnimationManager {
    /// The number of global-sequence clocks.
    pub open spec fn n_globals(&self) -> int {
        self.global_sequence_durations@.len() as int
    }

    /// All owned tracks are loaded, parallel and linked to clocks that
    /// exist.
    pub open spec fn tracks_wf(&self) -> bool {
        &&& forall|i: int|
            0 <= i < self.texture_weights@.len() ==> (#[trigger] self.texture_weights@[i]).wf_for(
                self.n_globals(),
            )
        &&& forall|i: int|
            0 <= i < self.texture_transforms@.len() ==> {
                let t = #[trigger] self.texture_transforms@[i];
                &&& t.translation.wf_for(self.n_globals())
                &&& t.rotation.wf_for(self.n_globals())
                &&& t.scaling.wf_for(self.n_globals())
            }
        &&& forall|i: int|
            0 <= i < self.colors@.len() ==> {
                let c = #[trigger] self.colors@[i];
                &&& c.color.wf_for(self.n_globals())
                &&& c.alpha.wf_for(self.n_globals())
            }
        &&& forall|i: int|
            0 <= i < self.bones@.len() ==> {
                let b = #[trigger] self.bones@[i];
                &&& b.translation.wf_for(self.n_globals())
                &&& b.rotation is Some
                &&& b.rotation.unwrap().wf_for(self.n_globals())
                &&& b.scaling.wf_for(self.n_globals())
            }
        &&& forall|i: int|
            0 <= i < self.lights@.len() ==> {
                let l = #[trigger] self.lights@[i];
                &&& l.ambient_color.wf_for(self.n_globals())
                &&& l.ambient_intensity.wf_for(self.n_globals())
                &&& l.diffuse_color.wf_for(self.n_globals())
                &&& l.diffuse_intensity.wf_for(self.n_globals())
                &&& l.attenuation_start.wf_for(self.n_globals())
                &&& l.attenuation_end.wf_for(self.n_globals())
                &&& l.visibility.wf_for(self.n_globals())
            }
    }

    /// The manager's invariant: a current slot always plays, every index
    /// stays inside the registry, the clock tables are parallel, the blend
    /// factor is a rational in `[0, 1]` with a 32-bit denominator, and the
    /// tables are well-formed.
    pub open spec fn wf(&self) -> bool {
        &&& self.global_sequence_times@.len() == self.global_sequence_durations@.len()
        &&& self.current_animation.animation_index is Some
        &&& (self.current_animation.animation_index.unwrap() as int) < self.sequences@.len()
        &&& (self.current_animation.main_variation_index as int) < self.sequences@.len()
        &&& self.next_animation.animation_index is Some ==> (
        self.next_animation.animation_index.unwrap() as int) < self.sequences@.len()
        &&& (self.next_animation.main_variation_index as int) < self.sequences@.len()
        &&& 0 < self.blend_den <= 0xffff_ffff
        &&& self.blend_num <= self.blend_den
        &&& seqs_wf(self.sequences@)
        &&& self.tracks_wf()
    }
}

/// The weighted variation walk, executed with the registry-size bound.
fn variation_walk_exec(
    seqs: &Vec<M2Sequence>,
    root: usize,
    current: Option<usize>,
    prob: u16,
) -> (r: usize)
    requires
        seqs_wf(seqs@),
        (root as int) < seqs@.len(),
        prob <= 0x7fff,
    ensures
        r == variation_walk(seqs@, root as int, current, 0, prob as int, seqs@.len() as nat),
        (r as int) < seqs@.len(),
{
    let mut at: usize = root;
    let mut accum: u64 = 0;
    let mut fuel: usize = seqs.len();
    loop
        invariant
            seqs_wf(seqs@),
            (at as int) < seqs@.len(),
            accum < 0x8000,
            prob <= 0x7fff,
            variation_walk(seqs@, at as int, current, accum as int, prob as int, fuel as nat)
                == variation_walk(seqs@, root as int, current, 0, prob as int, seqs@.len() as nat),
        decreases fuel,
    {
        let skip: bool = match current {
            Some(c) => c == at,
            None => false,
        };
        let accum2: u64 = if skip {
            accum
        } else {
            accum + (seqs[at].frequency as u64)
        };
        proof {
            reveal_with_fuel(variation_walk, 2);
        }
        if accum2 >= prob as u64 {
            proof {
                assert(variation_walk(seqs@, at as int, current, accum as int, prob as int, fuel as nat)
                    == at as int);
            }
            return at;
        }
        if seqs[at].variation_next <= -1 {
            proof {
                assert(variation_walk(seqs@, at as int, current, accum as int, prob as int, fuel as nat)
                    == at as int);
            }
            return at;
        }
        if fuel == 0 {
            proof {
                assert(variation_walk(seqs@, at as int, current, accum as int, prob as int, fuel as nat)
                    == at as int);
            }
            return at;
        }
        at = seqs[at].variation_next as usize;
        accum = accum2;
        fuel = fuel - 1;
    }
}

/// The alias chase, executed with the registry-size bound.
fn alias_walk_exec(seqs: &Vec<M2Sequence>, start: usize) -> (r: usize)
    requires
        seqs_wf(seqs@),
        (start as int) < seqs@.len(),
    ensures
        r == alias_walk(seqs@, start as int, seqs@.len() as nat),
        (r as int) < seqs@.len(),
{
    let mut at: usize = start;
    let mut fuel: usize = seqs.len();
    loop
        invariant
            seqs_wf(seqs@),
            (at as int) < seqs@.len(),
            alias_walk(seqs@, at as int, fuel as nat) == alias_walk(
                seqs@,
                start as int,
                seqs@.len() as nat,
            ),
        decreases fuel,
    {
        let flags: u32 = seqs[at].flags;
        proof {
            reveal_with_fuel(alias_walk, 2);
        }
        if !(flags & 0x20 == 0 && flags & 0x40 > 0) {
            proof {
                assert(alias_walk(seqs@, at as int, fuel as nat) == at as int);
            }
            return at;
        }
        if fuel == 0 {
            proof {
                assert(alias_walk(seqs@, at as int, fuel as nat) == at as int);
            }
            return at;
        }
        at = seqs[at].alias_next as usize;
        fuel = fuel - 1;
    }
}

} // verus!

verus! {

/// The default color/scale word triple (all ones).
pub open spec fn raw_one3() -> RawVec3 {
    RawVec3 { x: WORD_ONE, y: WORD_ONE, z: WORD_ONE }
}

/// The default translation word triple (all zeros).
pub open spec fn raw_zero3() -> RawVec3 {
    RawVec3 { x: 0, y: 0, z: 0 }
}

/// The identity rotation words.
pub open spec fn raw_quat_identity() -> RawQuat {
    RawQuat { x: 0, y: 0, z: 0, w: WORD_ONE }
}

/// The blended sample of one track under a given playback state: the
/// current slot's plan always, and the queued slot's plan exactly when a
/// queue exists and the blend factor `bnum / bden` is below `999 / 1000`.
pub open spec fn blended_plan_spec<T>(
    seqs: Seq<M2Sequence>,
    gtimes: Seq<u64>,
    gdurs: Seq<u32>,
    cur: AnimationState,
    nxt: AnimationState,
    bnum: u64,
    bden: u64,
    track: M2Track<T>,
    default: T,
) -> Blended<T> {
    let ci = cur.animation_index.unwrap() as int;
    let first = track_sample_spec(
        track,
        cur.animation_time,
        ci,
        gtimes,
        gdurs,
        seqs[ci].duration,
        default,
    );
    let second = if 1000 * bnum < 999 * bden && nxt.animation_index is Some {
        let ni = nxt.animation_index.unwrap() as int;
        Some(
            track_sample_spec(
                track,
                nxt.animation_time,
                ni,
                gtimes,
                gdurs,
                seqs[ni].duration,
                default,
            ),
        )
    } else {
        None
    };
    Blended { first, second, mix_num: bnum, mix_den: bden }
}

/// What a blended 16-bit plan evaluates to: the second plan's value is
/// mixed in with the blend factor as the parameter toward it.
pub open spec fn eval_blended_u16_spec(b: Blended<u16>) -> u16 {
    match b.second {
        None => eval_step_u16_spec(b.first),
        Some(s2) => lerp_u16(
            eval_step_u16_spec(b.first),
            eval_step_u16_spec(s2),
            b.mix_num,
            b.mix_den,
        ),
    }
}

/// What a blended byte plan evaluates to.
pub open spec fn eval_blended_u8_spec(b: Blended<u8>) -> u8 {
    match b.second {
        None => eval_step_u8_spec(b.first),
        Some(s2) => lerp_u8(eval_step_u8_spec(b.first), eval_step_u8_spec(s2), b.mix_num, b.mix_den),
    }
}

/// Evaluates a blended 16-bit plan exactly.
pub fn eval_blended_u16(b: &Blended<u16>) -> (r: u16)
    ensures
        r == eval_blended_u16_spec(*b),
{
    let first: u16 = crate::track::eval_step_u16(&b.first);
    match &b.second {
        None => first,
        Some(s2) => {
            let second: u16 = crate::track::eval_step_u16(s2);
            crate::track::eval_step_u16(&SampleStep::Mix(first, second, b.mix_num, b.mix_den))
        },
    }
}

/// Evaluates a blended byte plan exactly.
pub fn eval_blended_u8(b: &Blended<u8>) -> (r: u8)
    ensures
        r == eval_blended_u8_spec(*b),
{
    let first: u8 = crate::track::eval_step_u8(&b.first);
    match &b.second {
        None => first,
        Some(s2) => {
            let second: u8 = crate::track::eval_step_u8(s2);
            crate::track::eval_step_u8(&SampleStep::Mix(first, second, b.mix_num, b.mix_den))
        },
    }
}

impl AnimationManager {
    /// Samples one track for the playing sequence at `curr_time`,
    /// returning the exact keyframe plan.
    pub fn get_current_value<T: Copy>(
        &self,
        curr_time: u64,
        animation_index: usize,
        animation: &M2Track<T>,
        default: T,
    ) -> (r: SampleStep<T>)
        requires
            animation.wf_for(self.n_globals()),
            (animation_index as int) < self.sequences@.len(),
            self.global_sequence_times@.len() == self.global_sequence_durations@.len(),
        ensures
            r == track_sample_spec(
                *animation,
                curr_time,
                animation_index as int,
                self.global_sequence_times@,
                self.global_sequence_durations@,
                self.sequences@[animation_index as int].duration,
                default,
            ),
    {
        let seq_duration: u32 = self.sequences[animation_index].duration;
        sample_track(
            animation,
            curr_time,
            animation_index,
            &self.global_sequence_times,
            &self.global_sequence_durations,
            seq_duration,
            default,
        )
    }

    /// Samples one track for the current slot and, during a cross-blend,
    /// for the queued slot too, packaging both with the blend factor.
    pub fn get_current_value_with_blend<T: Copy>(&self, animation: &M2Track<T>, default: T) -> (r:
        Blended<T>)
        requires
            self.wf(),
            animation.wf_for(self.n_globals()),
        ensures
            r == blended_plan_spec(
                self.sequences@,
                self.global_sequence_times@,
                self.global_sequence_durations@,
                self.current_animation,
                self.next_animation,
                self.blend_num,
                self.blend_den,
                *animation,
                default,
            ),
    {
        let ci: usize = self.current_animation.animation_index.unwrap();
        let first: SampleStep<T> = self.get_current_value(
            self.current_animation.animation_time,
            ci,
            animation,
            default,
        );
        let mut second: Option<SampleStep<T>> = None;
        if 1000 * self.blend_num < 999 * self.blend_den {
            if let Some(ni) = self.next_animation.animation_index {
                second = Some(
                    self.get_current_value(
                        self.next_animation.animation_time,
                        ni,
                        animation,
                        default,
                    ),
                );
            }
        }
        Blended { first, second, mix_num: self.blend_num, mix_den: self.blend_den }
    }
}

} // verus!

verus! {

/// The blended plan of one track under the manager's present state.
pub open spec fn plan_of<T>(m: &AnimationManager, track: M2Track<T>, default: T) -> Blended<T> {
    blended_plan_spec(
        m.sequences@,
        m.global_sequence_times@,
        m.global_sequence_durations@,
        m.current_animation,
        m.next_animation,
        m.blend_num,
        m.blend_den,
        track,
        default,
    )
}

/// The transparency buffer holds the fresh resample of the weight tracks.
pub open spec fn weights_match(m: &AnimationManager) -> bool {
    &&& m.calculated_transparencies@.len() == m.texture_weights@.len()
    &&& (forall|i: int|
        0 <= i < m.texture_weights@.len() ==> m.calculated_transparencies@[i]
            == eval_blended_u16_spec(plan_of(m, m.texture_weights@[i], ALPHA_OPAQUE)))
}

/// The color buffer holds the fresh resample of the color entries.
pub open spec fn colors_match(m: &AnimationManager) -> bool {
    &&& m.calculated_colors@.len() == m.colors@.len()
    &&& (forall|i: int|
        0 <= i < m.colors@.len() ==> m.calculated_colors@[i] == (ColorPlan {
            rgb: plan_of(m, m.colors@[i].color, raw_one3()),
            alpha: eval_blended_u16_spec(plan_of(m, m.colors@[i].alpha, ALPHA_OPAQUE)),
        }))
}

/// The texture-transform buffers hold the fresh resample of their tracks.
pub open spec fn transforms_match(m: &AnimationManager) -> bool {
    &&& m.calculated_texture_translations@.len() == m.texture_transforms@.len()
    &&& m.calculated_texture_rotations@.len() == m.texture_transforms@.len()
    &&& m.calculated_texture_scalings@.len() == m.texture_transforms@.len()
    &&& (forall|i: int|
        0 <= i < m.texture_transforms@.len() ==> {
            let t = #[trigger] m.texture_transforms@[i];
            &&& m.calculated_texture_translations@[i] == plan_of(m, t.translation, raw_zero3())
            &&& m.calculated_texture_rotations@[i] == plan_of(m, t.rotation, raw_quat_identity())
            &&& m.calculated_texture_scalings@[i] == plan_of(m, t.scaling, raw_one3())
        })
}

/// The bone buffers hold the fresh resample of the bone tracks.
pub open spec fn bones_match(m: &AnimationManager) -> bool {
    &&& m.calculated_bone_translations@.len() == m.bones@.len()
    &&& m.calculated_bone_rotations@.len() == m.bones@.len()
    &&& m.calculated_bone_scalings@.len() == m.bones@.len()
    &&& (forall|i: int|
        0 <= i < m.bones@.len() ==> {
            let b = #[trigger] m.bones@[i];
            &&& m.calculated_bone_translations@[i] == plan_of(m, b.translation, raw_zero3())
            &&& m.calculated_bone_rotations@[i] == plan_of(
                m,
                b.rotation.unwrap(),
                raw_quat_identity(),
            )
            &&& m.calculated_bone_scalings@[i] == plan_of(m, b.scaling, raw_one3())
        })
}

/// The light buffers hold the fresh resample of the light tracks.
pub open spec fn lights_match(m: &AnimationManager) -> bool {
    &&& m.calculated_light_ambient_colors@.len() == m.lights@.len()
    &&& m.calculated_light_ambient_intensities@.len() == m.lights@.len()
    &&& m.calculated_light_diffuse_colors@.len() == m.lights@.len()
    &&& m.calculated_light_diffuse_intensities@.len() == m.lights@.len()
    &&& m.calculated_light_attenuation_starts@.len() == m.lights@.len()
    &&& m.calculated_light_attenuation_ends@.len() == m.lights@.len()
    &&& m.calculated_light_visibilities@.len() == m.lights@.len()
    &&& (forall|i: int|
        0 <= i < m.lights@.len() ==> {
            let l = #[trigger] m.lights@[i];
            &&& m.calculated_light_ambient_colors@[i] == plan_of(m, l.ambient_color, raw_one3())
            &&& m.calculated_light_ambient_intensities@[i] == plan_of(
                m,
                l.ambient_intensity,
                WORD_ONE,
            )
            &&& m.calculated_light_diffuse_colors@[i] == plan_of(m, l.diffuse_color, raw_one3())
            &&& m.calculated_light_diffuse_intensities@[i] == plan_of(
                m,
                l.diffuse_intensity,
                WORD_ONE,
            )
            &&& m.calculated_light_attenuation_starts@[i] == plan_of(
                m,
                l.attenuation_start,
                WORD_ONE,
            )
            &&& m.calculated_light_attenuation_ends@[i] == plan_of(m, l.attenuation_end, WORD_ONE)
            &&& m.calculated_light_visibilities@[i] == eval_blended_u8_spec(
                plan_of(m, l.visibility, 0u8),
            )
        })
}

/// Every output buffer holds exactly the fresh resample of its table under
/// the manager's present state, with the documented defaults.
pub open spec fn outputs_match(m: &AnimationManager) -> bool {
    &&& weights_match(m)
    &&& colors_match(m)
    &&& transforms_match(m)
    &&& bones_match(m)
    &&& lights_match(m)
}

impl AnimationManager {
    fn resample_weights(&self) -> (out: Vec<u16>)
        requires
            self.wf(),
        ensures
            out@.len() == self.texture_weights@.len(),
            forall|i: int|
                0 <= i < out@.len() ==> out@[i] == eval_blended_u16_spec(
                    plan_of(self, self.texture_weights@[i], ALPHA_OPAQUE),
                ),
    {
        let mut out: Vec<u16> = Vec::new();
        let n: usize = self.texture_weights.len();
        let mut i: usize = 0;
        while i < n
            invariant
                self.wf(),
                i <= n,
                n == self.texture_weights@.len(),
                out@.len() == i,
                forall|k: int|
                    0 <= k < i ==> out@[k] == eval_blended_u16_spec(
                        plan_of(self, self.texture_weights@[k], ALPHA_OPAQUE),
                    ),
            decreases n - i,
        {
            let b: Blended<u16> = self.get_current_value_with_blend(
                &self.texture_weights[i],
                ALPHA_OPAQUE,
            );
            out.push(eval_blended_u16(&b));
            i = i + 1;
        }
        out
    }

    fn resample_colors(&self) -> (out: Vec<ColorPlan>)
        requires
            self.wf(),
        ensures
            out@.len() == self.colors@.len(),
            forall|i: int|
                0 <= i < out@.len() ==> out@[i] == (ColorPlan {
                    rgb: plan_of(self, self.colors@[i].color, raw_one3()),
                    alpha: eval_blended_u16_spec(plan_of(self, self.colors@[i].alpha, ALPHA_OPAQUE)),
                }),
    {
        let mut out: Vec<ColorPlan> = Vec::new();
        let n: usize = self.colors.len();
        let mut i: usize = 0;
        while i < n
            invariant
                self.wf(),
                i <= n,
                n == self.colors@.len(),
                out@.len() == i,
                forall|k: int|
                    0 <= k < i ==> out@[k] == (ColorPlan {
                        rgb: plan_of(self, self.colors@[k].color, raw_one3()),
                        alpha: eval_blended_u16_spec(
                            plan_of(self, self.colors@[k].alpha, ALPHA_OPAQUE),
                        ),
                    }),
            decreases n - i,
        {
            let one3: RawVec3 = RawVec3 { x: WORD_ONE, y: WORD_ONE, z: WORD_ONE };
            let rgb: Blended<RawVec3> = self.get_current_value_with_blend(
                &self.colors[i].color,
                one3,
            );
            let ab: Blended<u16> = self.get_current_value_with_blend(
                &self.colors[i].alpha,
                ALPHA_OPAQUE,
            );
            out.push(ColorPlan { rgb, alpha: eval_blended_u16(&ab) });
            i = i + 1;
        }
        out
    }

    fn resample_transforms(&self) -> (out: (
        Vec<Blended<RawVec3>>,
        Vec<Blended<RawQuat>>,
        Vec<Blended<RawVec3>>,
    ))
        requires
            self.wf(),
        ensures
            out.0@.len() == self.texture_transforms@.len(),
            out.1@.len() == self.texture_transforms@.len(),
            out.2@.len() == self.texture_transforms@.len(),
            forall|i: int|
                0 <= i < self.texture_transforms@.len() ==> {
                    let t = #[trigger] self.texture_transforms@[i];
                    &&& out.0@[i] == plan_of(self, t.translation, raw_zero3())
                    &&& out.1@[i] == plan_of(self, t.rotation, raw_quat_identity())
                    &&& out.2@[i] == plan_of(self, t.scaling, raw_one3())
                },
    {
        let mut trans: Vec<Blended<RawVec3>> = Vec::new();
        let mut rots: Vec<Blended<RawQuat>> = Vec::new();
        let mut scales: Vec<Blended<RawVec3>> = Vec::new();
        let n: usize = self.texture_transforms.len();
        let mut i: usize = 0;
        while i < n
            invariant
                self.wf(),
                i <= n,
                n == self.texture_transforms@.len(),
                trans@.len() == i,
                rots@.len() == i,
                scales@.len() == i,
                forall|k: int|
                    0 <= k < i ==> {
                        let t = #[trigger] self.texture_transforms@[k];
                        &&& trans@[k] == plan_of(self, t.translation, raw_zero3())
                        &&& rots@[k] == plan_of(self, t.rotation, raw_quat_identity())
                        &&& scales@[k] == plan_of(self, t.scaling, raw_one3())
                    },
            decreases n - i,
        {
            let zero3: RawVec3 = RawVec3 { x: 0, y: 0, z: 0 };
            let one3: RawVec3 = RawVec3 { x: WORD_ONE, y: WORD_ONE, z: WORD_ONE };
            let qid: RawQuat = RawQuat { x: 0, y: 0, z: 0, w: WORD_ONE };
            let t: &M2TextureTransform = &self.texture_transforms[i];
            trans.push(self.get_current_value_with_blend(&t.translation, zero3));
            rots.push(self.get_current_value_with_blend(&t.rotation, qid));
            scales.push(self.get_current_value_with_blend(&t.scaling, one3));
            i = i + 1;
        }
        (trans, rots, scales)
    }

    fn resample_bones(&self) -> (out: (
        Vec<Blended<RawVec3>>,
        Vec<Blended<RawQuat>>,
        Vec<Blended<RawVec3>>,
    ))
        requires
            self.wf(),
        ensures
            out.0@.len() == self.bones@.len(),
            out.1@.len() == self.bones@.len(),
            out.2@.len() == self.bones@.len(),
            forall|i: int|
                0 <= i < self.bones@.len() ==> {
                    let b = #[trigger] self.bones@[i];
                    &&& out.0@[i] == plan_of(self, b.translation, raw_zero3())
                    &&& out.1@[i] == plan_of(self, b.rotation.unwrap(), raw_quat_identity())
                    &&& out.2@[i] == plan_of(self, b.scaling, raw_one3())
                },
    {
        let mut trans: Vec<Blended<RawVec3>> = Vec::new();
        let mut rots: Vec<Blended<RawQuat>> = Vec::new();
        let mut scales: Vec<Blended<RawVec3>> = Vec::new();
        let n: usize = self.bones.len();
        let mut i: usize = 0;
        while i < n
            invariant
                self.wf(),
                i <= n,
                n == self.bones@.len(),
                trans@.len() == i,
                rots@.len() == i,
                scales@.len() == i,
                forall|k: int|
                    0 <= k < i ==> {
                        let b = #[trigger] self.bones@[k];
                        &&& trans@[k] == plan_of(self, b.translation, raw_zero3())
                        &&& rots@[k] == plan_of(self, b.rotation.unwrap(), raw_quat_identity())
                        &&& scales@[k] == plan_of(self, b.scaling, raw_one3())
                    },
            decreases n - i,
        {
            let zero3: RawVec3 = RawVec3 { x: 0, y: 0, z: 0 };
            let one3: RawVec3 = RawVec3 { x: WORD_ONE, y: WORD_ONE, z: WORD_ONE };
            let qid: RawQuat = RawQuat { x: 0, y: 0, z: 0, w: WORD_ONE };
            let b: &M2CompBone = &self.bones[i];
            trans.push(self.get_current_value_with_blend(&b.translation, zero3));
            let rot_track: &M2Track<RawQuat> = b.rotation.as_ref().unwrap();
            rots.push(self.get_current_value_with_blend(rot_track, qid));
            scales.push(self.get_current_value_with_blend(&b.scaling, one3));
            i = i + 1;
        }
        (trans, rots, scales)
    }

    fn resample_lights(&self) -> (out: (
        Vec<Blended<RawVec3>>,
        Vec<Blended<u32>>,
        Vec<Blended<RawVec3>>,
        Vec<Blended<u32>>,
        Vec<Blended<u32>>,
        Vec<Blended<u32>>,
        Vec<u8>,
    ))
        requires
            self.wf(),
        ensures
            out.0@.len() == self.lights@.len(),
            out.1@.len() == self.lights@.len(),
            out.2@.len() == self.lights@.len(),
            out.3@.len() == self.lights@.len(),
            out.4@.len() == self.lights@.len(),
            out.5@.len() == self.lights@.len(),
            out.6@.len() == self.lights@.len(),
            forall|i: int|
                0 <= i < self.lights@.len() ==> {
                    let l = #[trigger] self.lights@[i];
                    &&& out.0@[i] == plan_of(self, l.ambient_color, raw_one3())
                    &&& out.1@[i] == plan_of(self, l.ambient_intensity, WORD_ONE)
                    &&& out.2@[i] == plan_of(self, l.diffuse_color, raw_one3())
                    &&& out.3@[i] == plan_of(self, l.diffuse_intensity, WORD_ONE)
                    &&& out.4@[i] == plan_of(self, l.attenuation_start, WORD_ONE)
                    &&& out.5@[i] == plan_of(self, l.attenuation_end, WORD_ONE)
                    &&& out.6@[i] == eval_blended_u8_spec(plan_of(self, l.visibility, 0u8))
                },
    {
        let mut ambient_colors: Vec<Blended<RawVec3>> = Vec::new();
        let mut ambient_intensities: Vec<Blended<u32>> = Vec::new();
        let mut diffuse_colors: Vec<Blended<RawVec3>> = Vec::new();
        let mut diffuse_intensities: Vec<Blended<u32>> = Vec::new();
        let mut attenuation_starts: Vec<Blended<u32>> = Vec::new();
        let mut attenuation_ends: Vec<Blended<u32>> = Vec::new();
        let mut visibilities: Vec<u8> = Vec::new();
        let n: usize = self.lights.len();
        let mut i: usize = 0;
        while i < n
            invariant
                self.wf(),
                i <= n,
                n == self.lights@.len(),
                ambient_colors@.len() == i,
                ambient_intensities@.len() == i,
                diffuse_colors@.len() == i,
                diffuse_intensities@.len() == i,
                attenuation_starts@.len() == i,
                attenuation_ends@.len() == i,
                visibilities@.len() == i,
                forall|k: int|
                    0 <= k < i ==> {
                        let l = #[trigger] self.lights@[k];
                        &&& ambient_colors@[k] == plan_of(self, l.ambient_color, raw_one3())
                        &&& ambient_intensities@[k] == plan_of(self, l.ambient_intensity, WORD_ONE)
                        &&& diffuse_colors@[k] == plan_of(self, l.diffuse_color, raw_one3())
                        &&& diffuse_intensities@[k] == plan_of(self, l.diffuse_intensity, WORD_ONE)
                        &&& attenuation_starts@[k] == plan_of(self, l.attenuation_start, WORD_ONE)
                        &&& attenuation_ends@[k] == plan_of(self, l.attenuation_end, WORD_ONE)
                        &&& visibilities@[k] == eval_blended_u8_spec(
                            plan_of(self, l.visibility, 0u8),
                        )
                    },
            decreases n - i,
        {
            let one3: RawVec3 = RawVec3 { x: WORD_ONE, y: WORD_ONE, z: WORD_ONE };
            let l: &M2Light = &self.lights[i];
            ambient_colors.push(self.get_current_value_with_blend(&l.ambient_color, one3));
            ambient_intensities.push(self.get_current_value_with_blend(&l.ambient_intensity, WORD_ONE));
            diffuse_colors.push(self.get_current_value_with_blend(&l.diffuse_color, one3));
            diffuse_intensities.push(self.get_current_value_with_blend(&l.diffuse_intensity, WORD_ONE));
            attenuation_starts.push(self.get_current_value_with_blend(&l.attenuation_start, WORD_ONE));
            attenuation_ends.push(self.get_current_value_with_blend(&l.attenuation_end, WORD_ONE));
            let vb: Blended<u8> = self.get_current_value_with_blend(&l.visibility, 0u8);
            visibilities.push(eval_blended_u8(&vb));
            i = i + 1;
        }
        (
            ambient_colors,
            ambient_intensities,
            diffuse_colors,
            diffuse_intensities,
            attenuation_starts,
            attenuation_ends,
            visibilities,
        )
    }
}

} // verus!

verus! {

impl AnimationManager {
    /// One simulation tick, `delta_time` in milliseconds: advances the
    /// playhead and every global clock, queues what plays next, schedules
    /// the cross-blend, commits a transition when the current clip has run
    /// out, and rewrites every output buffer in full. The new state is
    /// exactly `tick_step` of the old, and the outputs are exactly the
    /// fresh resample under the new state.
    /// The state phases of one tick, leaving the output buffers alone.
    #[verifier::rlimit(60)]
    fn advance_state(&mut self, delta_time: u64)
        requires
            old(self).wf(),
        ensures
            final(self).wf(),
            final(self).sequences == old(self).sequences,
            final(self).global_sequence_durations == old(self).global_sequence_durations,
            final(self).texture_weights == old(self).texture_weights,
            final(self).texture_transforms == old(self).texture_transforms,
            final(self).colors == old(self).colors,
            final(self).bones == old(self).bones,
            final(self).lights == old(self).lights,
            snap_of(final(self)) == tick_step(
                old(self).sequences@,
                old(self).global_sequence_durations@,
                snap_of(old(self)),
                delta_time,
            ),
    {
        let ghost s0 = snap_of(self);
        let ghost seqs = self.sequences@;
        let ghost gdurs = self.global_sequence_durations@;

        // Advance the playhead, saturating at the top of the range.
        let t0: u64 = self.current_animation.animation_time;
        self.current_animation.animation_time = if delta_time <= u64::MAX - t0 {
            t0 + delta_time
        } else {
            u64::MAX
        };

        // Advance and wrap every global-sequence clock.
        let n: usize = self.global_sequence_times.len();
        let mut gt2: Vec<u64> = Vec::new();
        let mut i: usize = 0;
        while i < n
            invariant
                i <= n,
                n == self.global_sequence_times@.len(),
                self.global_sequence_times@.len() == self.global_sequence_durations@.len(),
                gt2@.len() == i,
                forall|k: int|
                    0 <= k < i ==> gt2@[k] == wrap_time(
                        sat_add64(self.global_sequence_times@[k], delta_time),
                        self.global_sequence_durations@[k],
                    ),
            decreases n - i,
        {
            let t: u64 = self.global_sequence_times[i];
            let t2: u64 = if delta_time <= u64::MAX - t {
                t + delta_time
            } else {
                u64::MAX
            };
            let d: u32 = self.global_sequence_durations[i];
            let t3: u64 = if d > 0 {
                t2 % (d as u64)
            } else {
                t2
            };
            gt2.push(t3);
            i = i + 1;
        }
        self.global_sequence_times = gt2;

        let ghost s1 = phase_advance(gdurs, s0, delta_time);
        proof {
            assert(snap_of(self).gtimes =~= s1.gtimes);
            assert(snap_of(self) =~~= s1);
        }

        // Queue what plays next: a fresh variation, or a repeat.
        if self.next_animation.animation_index.is_none() && self.sequences[self.current_animation.main_variation_index].variation_next
            > -1 && self.current_animation.repeat_times <= 0 {
            let prob: u16 = self.rng.draw_probability();
            let chosen: usize = variation_walk_exec(
                &self.sequences,
                self.current_animation.main_variation_index,
                self.current_animation.animation_index,
                prob,
            );
            let reps: i32 = self.rng.draw_repeats(
                self.sequences[chosen].replay_min,
                self.sequences[chosen].replay_max,
            );
            self.next_animation = AnimationState {
                animation_index: Some(chosen),
                repeat_times: reps,
                animation_time: 0,
                main_variation_index: self.current_animation.main_variation_index,
            };
        } else if self.current_animation.repeat_times > 0 {
            let mut queued: AnimationState = self.current_animation;
            queued.repeat_times = queued.repeat_times - 1;
            self.next_animation = queued;
        }
        let ghost s2 = phase_queue(seqs, s1);
        proof {
            assert(snap_of(self) =~~= s2);
        }

        // Schedule the cross-blend toward the queued clip.
        let cur_idx: usize = self.current_animation.animation_index.unwrap();
        let dur: u32 = self.sequences[cur_idx].duration;
        let cur_time: u64 = self.current_animation.animation_time;
        let mut blended: bool = false;
        if let Some(nidx) = self.next_animation.animation_index {
            let bt: u32 = self.sequences[nidx].blend_time;
            if bt > 0 && (dur as u128) < (bt as u128) + (cur_time as u128) {
                let ndur: u32 = self.sequences[nidx].duration;
                let overrun: u128 = (bt as u128) + (cur_time as u128) - (dur as u128);
                let nt: u64 = if ndur > 0 {
                    (overrun % (ndur as u128)) as u64
                } else if overrun <= u64::MAX as u128 {
                    overrun as u64
                } else {
                    u64::MAX
                };
                self.next_animation.animation_time = nt;
                self.blend_num = if (dur as u64) >= cur_time {
                    (dur as u64) - cur_time
                } else {
                    0
                };
                self.blend_den = bt as u64;
                blended = true;
            }
        }
        if !blended {
            self.blend_num = 1;
            self.blend_den = 1;
        }
        let ghost s3 = phase_blend(seqs, s2);
        proof {
            assert(snap_of(self) =~~= s3);
        }

        // Commit: promote the queued clip (resolving aliases) when the
        // current one has run out, else loop in place.
        if self.current_animation.animation_time >= dur as u64 {
            let rt: i32 = self.current_animation.repeat_times;
            self.current_animation.repeat_times = if rt > i32::MIN {
                rt - 1
            } else {
                rt
            };
            if let Some(nidx) = self.next_animation.animation_index {
                let resolved: usize = alias_walk_exec(&self.sequences, nidx);
                self.next_animation.animation_index = Some(resolved);
                self.current_animation = self.next_animation;
                self.next_animation.animation_index = None;
                self.blend_num = 1;
                self.blend_den = 1;
            } else if dur > 0 {
                self.current_animation.animation_time = self.current_animation.animation_time % (
                dur as u64);
            }
        }
        let ghost s4 = phase_commit(seqs, s3);
        proof {
            assert(snap_of(self) =~~= s4);
            assert(self.wf());
        }
    }

    /// Rewrites every output buffer from the present state.
    #[verifier::rlimit(60)]
    fn refresh_outputs(&mut self)
        requires
            old(self).wf(),
        ensures
            final(self).wf(),
            final(self).sequences == old(self).sequences,
            final(self).global_sequence_durations == old(self).global_sequence_durations,
            final(self).global_sequence_times == old(self).global_sequence_times,
            final(self).texture_weights == old(self).texture_weights,
            final(self).texture_transforms == old(self).texture_transforms,
            final(self).colors == old(self).colors,
            final(self).bones == old(self).bones,
            final(self).lights == old(self).lights,
            final(self).current_animation == old(self).current_animation,
            final(self).next_animation == old(self).next_animation,
            final(self).rng == old(self).rng,
            final(self).blend_num == old(self).blend_num,
            final(self).blend_den == old(self).blend_den,
            outputs_match(final(self)),
    {
        // Resample every owned track set into the output buffers.
        let w: Vec<u16> = self.resample_weights();
        self.calculated_transparencies = w;
        let c: Vec<ColorPlan> = self.resample_colors();
        self.calculated_colors = c;
        let (tt, tr, ts): (Vec<Blended<RawVec3>>, Vec<Blended<RawQuat>>, Vec<Blended<RawVec3>>) =
            self.resample_transforms();
        self.calculated_texture_translations = tt;
        self.calculated_texture_rotations = tr;
        self.calculated_texture_scalings = ts;
        let (bt2, br, bs): (Vec<Blended<RawVec3>>, Vec<Blended<RawQuat>>, Vec<Blended<RawVec3>>) =
            self.resample_bones();
        self.calculated_bone_translations = bt2;
        self.calculated_bone_rotations = br;
        self.calculated_bone_scalings = bs;
        let (lac, lai, ldc, ldi, las, lae, lv): (
            Vec<Blended<RawVec3>>,
            Vec<Blended<u32>>,
            Vec<Blended<RawVec3>>,
            Vec<Blended<u32>>,
            Vec<Blended<u32>>,
            Vec<Blended<u32>>,
            Vec<u8>,
        ) = self.resample_lights();
        self.calculated_light_ambient_colors = lac;
        self.calculated_light_ambient_intensities = lai;
        self.calculated_light_diffuse_colors = ldc;
        self.calculated_light_diffuse_intensities = ldi;
        self.calculated_light_attenuation_starts = las;
        self.calculated_light_attenuation_ends = lae;
        self.calculated_light_visibilities = lv;
    }

    /// One simulation tick, `delta_time` in milliseconds: advances the
    /// playhead and every global clock, queues what plays next, schedules
    /// the cross-blend, commits a transition when the current clip has run
    /// out, and rewrites every output buffer in full. The new state is
    /// exactly `tick_step` of the old, and the outputs are exactly the
    /// fresh resample under the new state.
    pub fn update(&mut self, delta_time: u64)
        requires
            old(self).wf(),
        ensures
            final(self).wf(),
            final(self).sequences == old(self).sequences,
            final(self).global_sequence_durations == old(self).global_sequence_durations,
            final(self).texture_weights == old(self).texture_weights,
            final(self).texture_transforms == old(self).texture_transforms,
            final(self).colors == old(self).colors,
            final(self).bones == old(self).bones,
            final(self).lights == old(self).lights,
            snap_of(final(self)) == tick_step(
                old(self).sequences@,
                old(self).global_sequence_durations@,
                snap_of(old(self)),
                delta_time,
            ),
            outputs_match(final(self)),
    {
        self.advance_state(delta_time);
        self.refresh_outputs();
    }
}

} // verus!

verus! {

/// Whether some sequence in the registry has this id.
pub open spec fn has_id(seqs: Seq<M2Sequence>, id: u16) -> bool {
    exists|i: int| 0 <= i < seqs.len() && (#[trigger] seqs[i]).id == id
}

/// The least registry index whose sequence has this id (the length if
/// there is none).
pub open spec fn first_with_id(seqs: Seq<M2Sequence>, id: u16) -> int
    decreases seqs.len(),
{
    if seqs.len() == 0 {
        0
    } else if seqs[0].id == id {
        0
    } else {
        1 + first_with_id(seqs.skip(1), id)
    }
}

/// `first_with_id` is pinned down by its two defining properties.
pub proof fn lemma_first_with_id_is(seqs: Seq<M2Sequence>, id: u16, k: int)
    requires
        0 <= k <= seqs.len(),
        forall|j: int| 0 <= j < k ==> (#[trigger] seqs[j]).id != id,
        k < seqs.len() ==> seqs[k].id == id,
    ensures
        first_with_id(seqs, id) == k,
    decreases seqs.len(),
{
    if seqs.len() == 0 {
    } else if seqs[0].id == id {
        assert(k == 0);
    } else {
        let rest = seqs.skip(1);
        assert(forall|j: int| 0 <= j < rest.len() ==> rest[j] == seqs[j + 1]);
        lemma_first_with_id_is(rest, id, k - 1);
    }
}

/// What a loaded model must satisfy for the manager to accept it: a rest
/// sequence (id 0) exists, the registry links and replay bounds are sane,
/// and every track is loaded, parallel and points at clocks that exist.
pub open spec fn construction_ok(
    gdurs: Seq<u32>,
    seqs: Seq<M2Sequence>,
    weights: Seq<M2Track<u16>>,
    transforms: Seq<M2TextureTransform>,
    colors: Seq<M2Color>,
    bones: Seq<M2CompBone>,
    lights: Seq<M2Light>,
) -> bool {
    let ng = gdurs.len() as int;
    &&& has_id(seqs, 0)
    &&& seqs_wf(seqs)
    &&& forall|i: int| 0 <= i < weights.len() ==> (#[trigger] weights[i]).wf_for(ng)
    &&& forall|i: int|
        0 <= i < transforms.len() ==> {
            let t = #[trigger] transforms[i];
            &&& t.translation.wf_for(ng)
            &&& t.rotation.wf_for(ng)
            &&& t.scaling.wf_for(ng)
        }
    &&& forall|i: int|
        0 <= i < colors.len() ==> {
            let c = #[trigger] colors[i];
            &&& c.color.wf_for(ng)
            &&& c.alpha.wf_for(ng)
        }
    &&& forall|i: int|
        0 <= i < bones.len() ==> {
            let b = #[trigger] bones[i];
            &&& b.translation.wf_for(ng)
            &&& b.rotation is Some
            &&& b.rotation.unwrap().wf_for(ng)
            &&& b.scaling.wf_for(ng)
        }
    &&& forall|i: int|
        0 <= i < lights.len() ==> {
            let l = #[trigger] lights[i];
            &&& l.ambient_color.wf_for(ng)
            &&& l.ambient_intensity.wf_for(ng)
            &&& l.diffuse_color.wf_for(ng)
            &&& l.diffuse_intensity.wf_for(ng)
            &&& l.attenuation_start.wf_for(ng)
            &&& l.attenuation_end.wf_for(ng)
            &&& l.visibility.wf_for(ng)
        }
}

/// Checks one track against the manager's track invariant.
fn check_track<T>(t: &M2Track<T>, ng: usize) -> (r: Result<(), AnimationError>)
    ensures
        r is Ok <==> t.wf_for(ng as int),
{
    let ts: &Vec<Vec<u32>> = match t.timestamps.as_ref() {
        Some(v) => v,
        None => {
            return Err(AnimationError::TrackNotAllocated);
        },
    };
    let vs: &Vec<Vec<T>> = match t.values.as_ref() {
        Some(v) => v,
        None => {
            return Err(AnimationError::TrackNotAllocated);
        },
    };
    if ts.len() != vs.len() {
        proof {
            assert(t.ts().len() == ts@.len());
            assert(t.vs().len() == vs@.len());
        }
        return Err(AnimationError::TrackLengthMismatch);
    }
    let mut i: usize = 0;
    while i < ts.len()
        invariant
            i <= ts@.len(),
            t.timestamps == Some(*ts),
            t.values == Some(*vs),
            ts@.len() == vs@.len(),
            forall|k: int| 0 <= k < i ==> (#[trigger] ts@[k])@.len() == vs@[k]@.len(),
        decreases ts@.len() - i,
    {
        if ts[i].len() != vs[i].len() {
            proof {
                assert(t.ts()[i as int] == ts@[i as int]@);
                assert(t.vs()[i as int] == vs@[i as int]@);
            }
            return Err(AnimationError::TrackLengthMismatch);
        }
        i = i + 1;
    }
    if t.interpolation_type > 1 {
        return Err(AnimationError::UnknownInterpolation(t.interpolation_type));
    }
    if t.global_sequence >= 0 && t.global_sequence as usize >= ng {
        return Err(AnimationError::BadGlobalSequence);
    }
    proof {
        assert(forall|k: int|
            0 <= k < t.ts().len() ==> (#[trigger] t.ts()[k]).len() == t.vs()[k].len()) by {
            assert(forall|k: int|
                0 <= k < t.ts().len() ==> (#[trigger] t.ts()[k]) == ts@[k]@ && t.vs()[k]
                    == vs@[k]@);
        }
    }
    Ok(())
}

/// Checks the registry's links and replay bounds.
fn check_seqs(seqs: &Vec<M2Sequence>) -> (r: Result<(), AnimationError>)
    ensures
        r is Ok <==> seqs_wf(seqs@),
{
    let n: usize = seqs.len();
    let mut i: usize = 0;
    while i < n
        invariant
            i <= n,
            n == seqs@.len(),
            forall|k: int|
                0 <= k < i ==> {
                    let q = #[trigger] seqs@[k];
                    &&& q.variation_next > -1 ==> (q.variation_next as int) < seqs@.len()
                    &&& (q.flags & 0x20 == 0 && q.flags & 0x40 > 0) ==> (q.alias_next as int)
                        < seqs@.len()
                    &&& q.replay_min <= q.replay_max
                    &&& q.replay_max <= 0x7fff_ffff
                },
        decreases n - i,
    {
        let q: &M2Sequence = &seqs[i];
        if q.variation_next > -1 && q.variation_next as usize >= n {
            return Err(AnimationError::BadSequenceLink);
        }
        if (q.flags & 0x20 == 0 && q.flags & 0x40 > 0) && q.alias_next as usize >= n {
            return Err(AnimationError::BadSequenceLink);
        }
        if q.replay_min > q.replay_max || q.replay_max > 0x7fff_ffff {
            return Err(AnimationError::BadReplayBounds);
        }
        i = i + 1;
    }
    Ok(())
}

/// Finds the first registry index with this id.
fn find_id(seqs: &Vec<M2Sequence>, id: u16) -> (r: Option<usize>)
    ensures
        r is Some <==> has_id(seqs@, id),
        r matches Some(i) ==> {
            &&& i == first_with_id(seqs@, id)
            &&& (i as int) < seqs@.len()
            &&& seqs@[i as int].id == id
        },
{
    let n: usize = seqs.len();
    let mut i: usize = 0;
    while i < n
        invariant
            i <= n,
            n == seqs@.len(),
            forall|k: int| 0 <= k < i ==> (#[trigger] seqs@[k]).id != id,
        decreases n - i,
    {
        if seqs[i].id == id {
            proof {
                lemma_first_with_id_is(seqs@, id, i as int);
            }
            return Some(i);
        }
        i = i + 1;
    }
    None
}

} // verus!

verus! {

impl AnimationManager {
    /// Builds a manager over the loaded tables, validating them first and
    /// refusing malformed configuration outright. Playback starts on the
    /// rest sequence (the first one whose id is 0) with a freshly drawn
    /// repeat count from the fixed seed, nothing queued, and empty output
    /// buffers (the first tick fills them).
    pub fn new(
        global_sequence_durations: Vec<u32>,
        sequences: Vec<M2Sequence>,
        texture_weights: Vec<M2Track<u16>>,
        texture_transforms: Vec<M2TextureTransform>,
        colors: Vec<M2Color>,
        bones: Vec<M2CompBone>,
        lights: Vec<M2Light>,
    ) -> (r: Result<AnimationManager, AnimationError>)
        ensures
            r is Ok <==> construction_ok(
                global_sequence_durations@,
                sequences@,
                texture_weights@,
                texture_transforms@,
                colors@,
                bones@,
                lights@,
            ),
            r matches Ok(m) ==> {
                let idx = first_with_id(sequences@, 0);
                &&& m.wf()
                &&& m.sequences == sequences
                &&& m.global_sequence_durations == global_sequence_durations
                &&& m.texture_weights == texture_weights
                &&& m.texture_transforms == texture_transforms
                &&& m.colors == colors
                &&& m.bones == bones
                &&& m.lights == lights
                &&& m.global_sequence_times@ == Seq::new(global_sequence_durations@.len(), |i: int| 0u64)
                &&& m.rng.state == lcg_next(1312)
                &&& m.current_animation == (AnimationState {
                    animation_index: Some(idx as usize),
                    repeat_times: repeats_of(
                        sequences@[idx].replay_min,
                        sequences@[idx].replay_max,
                        lcg_low16(lcg_next(1312)),
                    ) as i32,
                    animation_time: 0,
                    main_variation_index: idx as usize,
                })
                &&& m.next_animation == state_new(None)
                &&& m.blend_num == 0
                &&& m.blend_den == 1
                &&& m.calculated_transparencies@.len() == 0
                &&& m.calculated_colors@.len() == 0
                &&& m.calculated_texture_translations@.len() == 0
                &&& m.calculated_texture_rotations@.len() == 0
                &&& m.calculated_texture_scalings@.len() == 0
                &&& m.calculated_bone_translations@.len() == 0
                &&& m.calculated_bone_rotations@.len() == 0
                &&& m.calculated_bone_scalings@.len() == 0
                &&& m.calculated_light_ambient_colors@.len() == 0
                &&& m.calculated_light_ambient_intensities@.len() == 0
                &&& m.calculated_light_diffuse_colors@.len() == 0
                &&& m.calculated_light_diffuse_intensities@.len() == 0
                &&& m.calculated_light_attenuation_starts@.len() == 0
                &&& m.calculated_light_attenuation_ends@.len() == 0
                &&& m.calculated_light_visibilities@.len() == 0
            },
    {
        let ng: usize = global_sequence_durations.len();

        let index: usize = match find_id(&sequences, 0) {
            Some(i) => i,
            None => {
                return Err(AnimationError::SequenceNotFound(0));
            },
        };
        if let Err(e) = check_seqs(&sequences) {
            return Err(e);
        }

        let mut i: usize = 0;
        while i < texture_weights.len()
            invariant
                i <= texture_weights@.len(),
                ng == global_sequence_durations@.len(),
                forall|k: int|
                    0 <= k < i ==> (#[trigger] texture_weights@[k]).wf_for(ng as int),
            decreases texture_weights@.len() - i,
        {
            if let Err(e) = check_track(&texture_weights[i], ng) {
                return Err(e);
            }
            i = i + 1;
        }

        let mut i: usize = 0;
        while i < texture_transforms.len()
            invariant
                i <= texture_transforms@.len(),
                ng == global_sequence_durations@.len(),
                forall|k: int|
                    0 <= k < i ==> {
                        let t = #[trigger] texture_transforms@[k];
                        &&& t.translation.wf_for(ng as int)
                        &&& t.rotation.wf_for(ng as int)
                        &&& t.scaling.wf_for(ng as int)
                    },
            decreases texture_transforms@.len() - i,
        {
            let t: &M2TextureTransform = &texture_transforms[i];
            if let Err(e) = check_track(&t.translation, ng) {
                return Err(e);
            }
            if let Err(e) = check_track(&t.rotation, ng) {
                return Err(e);
            }
            if let Err(e) = check_track(&t.scaling, ng) {
                return Err(e);
            }
            i = i + 1;
        }

        let mut i: usize = 0;
        while i < colors.len()
            invariant
                i <= colors@.len(),
                ng == global_sequence_durations@.len(),
                forall|k: int|
                    0 <= k < i ==> {
                        let c = #[trigger] colors@[k];
                        &&& c.color.wf_for(ng as int)
                        &&& c.alpha.wf_for(ng as int)
                    },
            decreases colors@.len() - i,
        {
            let c: &M2Color = &colors[i];
            if let Err(e) = check_track(&c.color, ng) {
                return Err(e);
            }
            if let Err(e) = check_track(&c.alpha, ng) {
                return Err(e);
            }
            i = i + 1;
        }

        let mut i: usize = 0;
        while i < bones.len()
            invariant
                i <= bones@.len(),
                ng == global_sequence_durations@.len(),
                forall|k: int|
                    0 <= k < i ==> {
                        let b = #[trigger] bones@[k];
                        &&& b.translation.wf_for(ng as int)
                        &&& b.rotation is Some
                        &&& b.rotation.unwrap().wf_for(ng as int)
                        &&& b.scaling.wf_for(ng as int)
                    },
            decreases bones@.len() - i,
        {
            let b: &M2CompBone = &bones[i];
            if let Err(e) = check_track(&b.translation, ng) {
                return Err(e);
            }
            match b.rotation.as_ref() {
                Some(rot) => {
                    if let Err(e) = check_track(rot, ng) {
                        return Err(e);
                    }
                },
                None => {
                    return Err(AnimationError::MissingRotation);
                },
            }
            if let Err(e) = check_track(&b.scaling, ng) {
                return Err(e);
            }
            i = i + 1;
        }

        let mut i: usize = 0;
        while i < lights.len()
            invariant
                i <= lights@.len(),
                ng == global_sequence_durations@.len(),
                forall|k: int|
                    0 <= k < i ==> {
                        let l = #[trigger] lights@[k];
                        &&& l.ambient_color.wf_for(ng as int)
                        &&& l.ambient_intensity.wf_for(ng as int)
                        &&& l.diffuse_color.wf_for(ng as int)
                        &&& l.diffuse_intensity.wf_for(ng as int)
                        &&& l.attenuation_start.wf_for(ng as int)
                        &&& l.attenuation_end.wf_for(ng as int)
                        &&& l.visibility.wf_for(ng as int)
                    },
            decreases lights@.len() - i,
        {
            let l: &M2Light = &lights[i];
            if let Err(e) = check_track(&l.ambient_color, ng) {
                return Err(e);
            }
            if let Err(e) = check_track(&l.ambient_intensity, ng) {
                return Err(e);
            }
            if let Err(e) = check_track(&l.diffuse_color, ng) {
                return Err(e);
            }
            if let Err(e) = check_track(&l.diffuse_intensity, ng) {
                return Err(e);
            }
            if let Err(e) = check_track(&l.attenuation_start, ng) {
                return Err(e);
            }
            if let Err(e) = check_track(&l.attenuation_end, ng) {
                return Err(e);
            }
            if let Err(e) = check_track(&l.visibility, ng) {
                return Err(e);
            }
            i = i + 1;
        }

        let mut global_sequence_times: Vec<u64> = Vec::new();
        let mut i: usize = 0;
        while i < ng
            invariant
                i <= ng,
                global_sequence_times@.len() == i,
                forall|k: int| 0 <= k < i ==> global_sequence_times@[k] == 0u64,
            decreases ng - i,
        {
            global_sequence_times.push(0);
            i = i + 1;
        }
        proof {
            assert(global_sequence_times@ =~= Seq::new(global_sequence_durations@.len(), |i: int| 0u64));
        }

        let mut rng: LcgRng = LcgRng::new(1312);
        let mut current_animation: AnimationState = AnimationState::new(Some(index));
        current_animation.repeat_times = rng.draw_repeats(
            sequences[index].replay_min,
            sequences[index].replay_max,
        );
        let next_animation: AnimationState = AnimationState::new(None);

        Ok(
            AnimationManager {
                global_sequence_durations,
                global_sequence_times,
                sequences,
                texture_weights,
                texture_transforms,
                colors,
                bones,
                lights,
                current_animation,
                next_animation,
                rng,
                blend_num: 0,
                blend_den: 1,
                calculated_transparencies: Vec::new(),
                calculated_colors: Vec::new(),
                calculated_texture_translations: Vec::new(),
                calculated_texture_rotations: Vec::new(),
                calculated_texture_scalings: Vec::new(),
                calculated_bone_translations: Vec::new(),
                calculated_bone_rotations: Vec::new(),
                calculated_bone_scalings: Vec::new(),
                calculated_light_ambient_colors: Vec::new(),
                calculated_light_ambient_intensities: Vec::new(),
                calculated_light_diffuse_colors: Vec::new(),
                calculated_light_diffuse_intensities: Vec::new(),
                calculated_light_attenuation_starts: Vec::new(),
                calculated_light_attenuation_ends: Vec::new(),
                calculated_light_visibilities: Vec::new(),
            },
        )
    }

    /// Selects the first sequence with this id as the new current clip:
    /// the playhead resets, its repeat count is freshly drawn, and the
    /// queue is cleared. Fails, changing nothing, when no sequence has the
    /// id.
    pub fn set_sequence_id(&mut self, id: u16) -> (r: Result<(), AnimationError>)
        requires
            old(self).wf(),
        ensures
            final(self).wf(),
            final(self).sequences == old(self).sequences,
            final(self).global_sequence_durations == old(self).global_sequence_durations,
            final(self).global_sequence_times == old(self).global_sequence_times,
            final(self).texture_weights == old(self).texture_weights,
            final(self).texture_transforms == old(self).texture_transforms,
            final(self).colors == old(self).colors,
            final(self).bones == old(self).bones,
            final(self).lights == old(self).lights,
            final(self).blend_num == old(self).blend_num,
            final(self).blend_den == old(self).blend_den,
            r is Ok <==> has_id(old(self).sequences@, id),
            r matches Ok(u) ==> {
                let idx = first_with_id(old(self).sequences@, id);
                &&& final(self).current_animation == (AnimationState {
                    animation_index: Some(idx as usize),
                    repeat_times: repeats_of(
                        old(self).sequences@[idx].replay_min,
                        old(self).sequences@[idx].replay_max,
                        lcg_low16(lcg_next(old(self).rng.state)),
                    ) as i32,
                    animation_time: 0,
                    main_variation_index: idx as usize,
                })
                &&& final(self).next_animation == state_new(None)
                &&& final(self).rng.state == lcg_next(old(self).rng.state)
            },
            r is Err ==> *final(self) == *old(self),
    {
        let index: usize = match find_id(&self.sequences, id) {
            Some(i) => i,
            None => {
                return Err(AnimationError::SequenceNotFound(id));
            },
        };
        let mut fresh: AnimationState = AnimationState::new(Some(index));
        fresh.repeat_times = self.rng.draw_repeats(
            self.sequences[index].replay_min,
            self.sequences[index].replay_max,
        );
        self.current_animation = fresh;
        self.next_animation = AnimationState::new(None);
        Ok(())
    }
}

} // verus!

verus! {

impl AnimationManager {
    /// The id of every sequence, in registry order.
    pub fn get_sequence_ids(&self) -> (r: Vec<u16>)
        ensures
            r@.len() == self.sequences@.len(),
            forall|i: int| 0 <= i < r@.len() ==> r@[i] == (#[trigger] self.sequences@[i]).id,
    {
        let mut out: Vec<u16> = Vec::new();
        let n: usize = self.sequences.len();
        let mut i: usize = 0;
        while i < n
            invariant
                i <= n,
                n == self.sequences@.len(),
                out@.len() == i,
                forall|k: int| 0 <= k < i ==> out@[k] == (#[trigger] self.sequences@[k]).id,
            decreases n - i,
        {
            out.push(self.sequences[i].id);
            i = i + 1;
        }
        out
    }

    pub fn get_num_colors(&self) -> (r: usize)
        ensures
            r == self.colors@.len(),
    {
        self.colors.len()
    }

    pub fn get_num_bones(&self) -> (r: usize)
        ensures
            r == self.bones@.len(),
    {
        self.bones.len()
    }

    pub fn get_num_lights(&self) -> (r: usize)
        ensures
            r == self.lights@.len(),
    {
        self.lights.len()
    }

    pub fn get_num_transformations(&self) -> (r: usize)
        ensures
            r == self.texture_transforms@.len(),
    {
        self.texture_transforms.len()
    }

    pub fn get_num_texture_weights(&self) -> (r: usize)
        ensures
            r == self.texture_weights@.len(),
    {
        self.texture_weights.len()
    }

    /// The bone each light is attached to.
    pub fn get_light_bones(&self) -> (r: Vec<i16>)
        ensures
            r@.len() == self.lights@.len(),
            forall|i: int| 0 <= i < r@.len() ==> r@[i] == (#[trigger] self.lights@[i]).bone,
    {
        let mut out: Vec<i16> = Vec::new();
        let n: usize = self.lights.len();
        let mut i: usize = 0;
        while i < n
            invariant
                i <= n,
                n == self.lights@.len(),
                out@.len() == i,
                forall|k: int| 0 <= k < i ==> out@[k] == (#[trigger] self.lights@[k]).bone,
            decreases n - i,
        {
            out.push(self.lights[i].bone);
            i = i + 1;
        }
        out
    }

    /// Every light's rest position, flattened to three scalar words per
    /// light.
    pub fn get_light_positions(&self) -> (r: Vec<u32>)
        ensures
            r@.len() == 3 * self.lights@.len(),
            forall|i: int|
                0 <= i < self.lights@.len() ==> {
                    let p = (#[trigger] self.lights@[i]).position;
                    &&& r@[3 * i] == p.x
                    &&& r@[3 * i + 1] == p.y
                    &&& r@[3 * i + 2] == p.z
                },
    {
        let n: usize = self.lights.len();
        let mut out: Vec<u32> = Vec::new();
        let mut i: usize = 0;
        while i < n
            invariant
                i <= n,
                n == self.lights@.len(),
                out@.len() == 3 * i,
                forall|k: int|
                    0 <= k < i ==> {
                        let p = (#[trigger] self.lights@[k]).position;
                        &&& out@[3 * k] == p.x
                        &&& out@[3 * k + 1] == p.y
                        &&& out@[3 * k + 2] == p.z
                    },
            decreases n - i,
        {
            let p: RawVec3 = self.lights[i].position;
            out.push(p.x);
            out.push(p.y);
            out.push(p.z);
            i = i + 1;
        }
        out
    }

    /// Every bone's pivot point.
    pub fn get_bone_pivots(&self) -> (r: Vec<RawVec3>)
        ensures
            r@.len() == self.bones@.len(),
            forall|i: int| 0 <= i < r@.len() ==> r@[i] == (#[trigger] self.bones@[i]).pivot,
    {
        let mut out: Vec<RawVec3> = Vec::new();
        let n: usize = self.bones.len();
        let mut i: usize = 0;
        while i < n
            invariant
                i <= n,
                n == self.bones@.len(),
                out@.len() == i,
                forall|k: int| 0 <= k < i ==> out@[k] == (#[trigger] self.bones@[k]).pivot,
            decreases n - i,
        {
            out.push(self.bones[i].pivot);
            i = i + 1;
        }
        out
    }

    /// Every bone's parent index (negative means a root).
    pub fn get_bone_parents(&self) -> (r: Vec<i16>)
        ensures
            r@.len() == self.bones@.len(),
            forall|i: int| 0 <= i < r@.len() ==> r@[i] == (#[trigger] self.bones@[i]).parent_bone,
    {
        let mut out: Vec<i16> = Vec::new();
        let n: usize = self.bones.len();
        let mut i: usize = 0;
        while i < n
            invariant
                i <= n,
                n == self.bones@.len(),
                out@.len() == i,
                forall|k: int| 0 <= k < i ==> out@[k] == (#[trigger] self.bones@[k]).parent_bone,
            decreases n - i,
        {
            out.push(self.bones[i].parent_bone);
            i = i + 1;
        }
        out
    }

    /// Every bone's raw flag word.
    pub fn get_bone_flags(&self) -> (r: Vec<u32>)
        ensures
            r@.len() == self.bones@.len(),
            forall|i: int| 0 <= i < r@.len() ==> r@[i] == (#[trigger] self.bones@[i]).flags,
    {
        let mut out: Vec<u32> = Vec::new();
        let n: usize = self.bones.len();
        let mut i: usize = 0;
        while i < n
            invariant
                i <= n,
                n == self.bones@.len(),
                out@.len() == i,
                forall|k: int| 0 <= k < i ==> out@[k] == (#[trigger] self.bones@[k]).flags,
            decreases n - i,
        {
            out.push(self.bones[i].flags);
            i = i + 1;
        }
        out
    }
}

} // verus!
