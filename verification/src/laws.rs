//! The playback laws, proved once over the spec-level tick model that
//! `AnimationManager::update` is proved to realise.

use vstd::prelude::*;

use crate::manager::AnimationManager;
use crate::track::SampleStep;
use crate::track::eval_step_u16_spec;
use crate::manager::M2Sequence;
use crate::manager::TickSnap;
use crate::manager::dec_i32;
use crate::manager::bones_match;
use crate::manager::colors_match;
use crate::manager::lights_match;
use crate::manager::outputs_match;
use crate::manager::transforms_match;
use crate::manager::weights_match;
use crate::manager::phase_advance;
use crate::manager::phase_blend;
use crate::manager::phase_commit;
use crate::manager::phase_queue;
use crate::manager::sat_add64;
use crate::manager::selection_applies;
use crate::manager::seqs_wf;
use crate::manager::snap_of;
use crate::manager::tick_step;
use crate::manager::variation_walk;
use crate::manager::wrap_time;

verus! {

/// A snapshot that a well-formed manager can hold: a current clip always
/// plays, every index stays inside the registry, the clock tables are
/// parallel with every positive-length clock already wrapped, and the
/// registry is sane.
pub open spec fn snap_wf(seqs: Seq<M2Sequence>, gdurs: Seq<u32>, s: TickSnap) -> bool {
    &&& s.current.animation_index is Some
    &&& (s.current.animation_index.unwrap() as int) < seqs.len()
    &&& (s.current.main_variation_index as int) < seqs.len()
    &&& s.next.animation_index is Some ==> (s.next.animation_index.unwrap() as int) < seqs.len()
    &&& (s.next.main_variation_index as int) < seqs.len()
    &&& s.gtimes.len() == gdurs.len()
    &&& forall|i: int|
        0 <= i < gdurs.len() ==> (gdurs[i] > 0 ==> s.gtimes[i] < gdurs[i] as u64)
    &&& seqs_wf(seqs)
}

/// A zero-length tick leaves the clocks where they are.
proof fn lemma_advance_zero(gdurs: Seq<u32>, s: TickSnap)
    requires
        s.gtimes.len() == gdurs.len(),
        forall|i: int| 0 <= i < gdurs.len() ==> (gdurs[i] > 0 ==> s.gtimes[i] < gdurs[i] as u64),
    ensures
        phase_advance(gdurs, s, 0) == s,
{
    let s1 = phase_advance(gdurs, s, 0);
    assert forall|i: int| 0 <= i < s.gtimes.len() implies s1.gtimes[i] == s.gtimes[i] by {
        assert(sat_add64(s.gtimes[i], 0) == s.gtimes[i]);
        if gdurs[i] > 0 {
            vstd::arithmetic::div_mod::lemma_small_mod(
                s.gtimes[i] as nat,
                (gdurs[i] as u64) as nat,
            );
        }
    }
    assert(s1.gtimes =~= s.gtimes);
    assert(s1 =~~= s);
}

/// Idempotence of the zero tick: once `tick_step` has been applied with a
/// zero delta, applying it again changes nothing — the draw, the queue,
/// the blend schedule and the commit all reproduce themselves. The one
/// family of inputs left out is a playhead already at or past the clip's
/// end (in particular a zero-duration clip), where each zero tick keeps
/// counting down the repeat counter.
pub proof fn lemma_tick_zero_idempotent(seqs: Seq<M2Sequence>, gdurs: Seq<u32>, s: TickSnap)
    requires
        snap_wf(seqs, gdurs, s),
        (s.current.animation_time as int) < seqs[s.current.animation_index.unwrap() as int].duration
            as int,
    ensures
        tick_step(seqs, gdurs, tick_step(seqs, gdurs, s, 0), 0) == tick_step(seqs, gdurs, s, 0),
{
    lemma_advance_zero(gdurs, s);
    let sa = phase_queue(seqs, s);
    let sb = phase_blend(seqs, sa);
    let sc = phase_commit(seqs, sb);
    assert(sa.current == s.current);
    assert(sb.current == s.current);
    assert(sb.gtimes == s.gtimes);
    assert(sc == sb);
    assert(tick_step(seqs, gdurs, s, 0) == sb);

    lemma_advance_zero(gdurs, sb);
    let ta = phase_queue(seqs, sb);
    let tb = phase_blend(seqs, ta);
    let tc = phase_commit(seqs, tb);
    assert(tick_step(seqs, gdurs, sb, 0) == tc);

    if selection_applies(seqs, s) {
        // A fresh variation was queued; the second tick sees it queued and
        // draws nothing.
        assert(sa.next.animation_index is Some);
        assert(!selection_applies(seqs, sb));
        assert(s.current.repeat_times <= 0);
        assert(ta == sb);
        assert(tb =~~= sb);
    } else if s.current.repeat_times > 0 {
        // A repeat was queued; the second tick re-queues the same repeat
        // and the blend schedule recomputes the same playhead.
        assert(ta.next.repeat_times == sb.next.repeat_times);
        assert(tb =~~= sb);
    } else {
        assert(sa == s);
        assert(!selection_applies(seqs, sb));
        assert(ta == sb);
        assert(tb =~~= sb);
    }
    assert(tc == tb);
    assert(tc =~~= sb);
}

/// The state/table preconditions under which two managers are
/// indistinguishable.
pub open spec fn same_model(a: &AnimationManager, b: &AnimationManager) -> bool {
    &&& snap_of(a) == snap_of(b)
    &&& a.sequences@ == b.sequences@
    &&& a.global_sequence_durations@ == b.global_sequence_durations@
    &&& a.texture_weights@ == b.texture_weights@
    &&& a.texture_transforms@ == b.texture_transforms@
    &&& a.colors@ == b.colors@
    &&& a.bones@ == b.bones@
    &&& a.lights@ == b.lights@
}

proof fn lemma_det_weights(a: &AnimationManager, b: &AnimationManager)
    requires
        same_model(a, b),
        weights_match(a),
        weights_match(b),
    ensures
        a.calculated_transparencies@ == b.calculated_transparencies@,
{
    assert forall|i: int| 0 <= i < a.texture_weights@.len() implies a.calculated_transparencies@[i]
        == b.calculated_transparencies@[i] by {
        assert(a.texture_weights@[i] == b.texture_weights@[i]);
    }
    assert(a.calculated_transparencies@ =~= b.calculated_transparencies@);
}

proof fn lemma_det_colors(a: &AnimationManager, b: &AnimationManager)
    requires
        same_model(a, b),
        colors_match(a),
        colors_match(b),
    ensures
        a.calculated_colors@ == b.calculated_colors@,
{
    assert forall|i: int| 0 <= i < a.colors@.len() implies a.calculated_colors@[i]
        == b.calculated_colors@[i] by {
        assert(a.colors@[i] == b.colors@[i]);
    }
    assert(a.calculated_colors@ =~= b.calculated_colors@);
}

proof fn lemma_det_transforms(a: &AnimationManager, b: &AnimationManager)
    requires
        same_model(a, b),
        transforms_match(a),
        transforms_match(b),
    ensures
        a.calculated_texture_translations@ == b.calculated_texture_translations@,
        a.calculated_texture_rotations@ == b.calculated_texture_rotations@,
        a.calculated_texture_scalings@ == b.calculated_texture_scalings@,
{
    assert forall|i: int|
        0 <= i < a.texture_transforms@.len() implies a.calculated_texture_translations@[i]
        == b.calculated_texture_translations@[i] && a.calculated_texture_rotations@[i]
        == b.calculated_texture_rotations@[i] && a.calculated_texture_scalings@[i]
        == b.calculated_texture_scalings@[i] by {
        assert(a.texture_transforms@[i] == b.texture_transforms@[i]);
    }
    assert(a.calculated_texture_translations@ =~= b.calculated_texture_translations@);
    assert(a.calculated_texture_rotations@ =~= b.calculated_texture_rotations@);
    assert(a.calculated_texture_scalings@ =~= b.calculated_texture_scalings@);
}

proof fn lemma_det_bones(a: &AnimationManager, b: &AnimationManager)
    requires
        same_model(a, b),
        bones_match(a),
        bones_match(b),
    ensures
        a.calculated_bone_translations@ == b.calculated_bone_translations@,
        a.calculated_bone_rotations@ == b.calculated_bone_rotations@,
        a.calculated_bone_scalings@ == b.calculated_bone_scalings@,
{
    assert forall|i: int| 0 <= i < a.bones@.len() implies a.calculated_bone_translations@[i]
        == b.calculated_bone_translations@[i] && a.calculated_bone_rotations@[i]
        == b.calculated_bone_rotations@[i] && a.calculated_bone_scalings@[i]
        == b.calculated_bone_scalings@[i] by {
        assert(a.bones@[i] == b.bones@[i]);
    }
    assert(a.calculated_bone_translations@ =~= b.calculated_bone_translations@);
    assert(a.calculated_bone_rotations@ =~= b.calculated_bone_rotations@);
    assert(a.calculated_bone_scalings@ =~= b.calculated_bone_scalings@);
}

proof fn lemma_det_lights(a: &AnimationManager, b: &AnimationManager)
    requires
        same_model(a, b),
        lights_match(a),
        lights_match(b),
    ensures
        a.calculated_light_ambient_colors@ == b.calculated_light_ambient_colors@,
        a.calculated_light_ambient_intensities@ == b.calculated_light_ambient_intensities@,
        a.calculated_light_diffuse_colors@ == b.calculated_light_diffuse_colors@,
        a.calculated_light_diffuse_intensities@ == b.calculated_light_diffuse_intensities@,
        a.calculated_light_attenuation_starts@ == b.calculated_light_attenuation_starts@,
        a.calculated_light_attenuation_ends@ == b.calculated_light_attenuation_ends@,
        a.calculated_light_visibilities@ == b.calculated_light_visibilities@,
{
    assert forall|i: int| 0 <= i < a.lights@.len() implies a.calculated_light_ambient_colors@[i]
        == b.calculated_light_ambient_colors@[i] && a.calculated_light_ambient_intensities@[i]
        == b.calculated_light_ambient_intensities@[i] && a.calculated_light_diffuse_colors@[i]
        == b.calculated_light_diffuse_colors@[i] && a.calculated_light_diffuse_intensities@[i]
        == b.calculated_light_diffuse_intensities@[i] && a.calculated_light_attenuation_starts@[i]
        == b.calculated_light_attenuation_starts@[i] && a.calculated_light_attenuation_ends@[i]
        == b.calculated_light_attenuation_ends@[i] && a.calculated_light_visibilities@[i]
        == b.calculated_light_visibilities@[i] by {
        assert(a.lights@[i] == b.lights@[i]);
    }
    assert(a.calculated_light_ambient_colors@ =~= b.calculated_light_ambient_colors@);
    assert(a.calculated_light_ambient_intensities@ =~= b.calculated_light_ambient_intensities@);
    assert(a.calculated_light_diffuse_colors@ =~= b.calculated_light_diffuse_colors@);
    assert(a.calculated_light_diffuse_intensities@ =~= b.calculated_light_diffuse_intensities@);
    assert(a.calculated_light_attenuation_starts@ =~= b.calculated_light_attenuation_starts@);
    assert(a.calculated_light_attenuation_ends@ =~= b.calculated_light_attenuation_ends@);
    assert(a.calculated_light_visibilities@ =~= b.calculated_light_visibilities@);
}

/// Determinism: two managers over the same tables and in the same state
/// hold bit-identical output buffers once each has resampled, and the
/// next tick takes them to the same state again.
pub proof fn lemma_deterministic_outputs(a: &AnimationManager, b: &AnimationManager, delta: u64)
    requires
        same_model(a, b),
        outputs_match(a),
        outputs_match(b),
    ensures
        a.calculated_transparencies@ == b.calculated_transparencies@,
        a.calculated_colors@ == b.calculated_colors@,
        a.calculated_texture_translations@ == b.calculated_texture_translations@,
        a.calculated_texture_rotations@ == b.calculated_texture_rotations@,
        a.calculated_texture_scalings@ == b.calculated_texture_scalings@,
        a.calculated_bone_translations@ == b.calculated_bone_translations@,
        a.calculated_bone_rotations@ == b.calculated_bone_rotations@,
        a.calculated_bone_scalings@ == b.calculated_bone_scalings@,
        a.calculated_light_ambient_colors@ == b.calculated_light_ambient_colors@,
        a.calculated_light_ambient_intensities@ == b.calculated_light_ambient_intensities@,
        a.calculated_light_diffuse_colors@ == b.calculated_light_diffuse_colors@,
        a.calculated_light_diffuse_intensities@ == b.calculated_light_diffuse_intensities@,
        a.calculated_light_attenuation_starts@ == b.calculated_light_attenuation_starts@,
        a.calculated_light_attenuation_ends@ == b.calculated_light_attenuation_ends@,
        a.calculated_light_visibilities@ == b.calculated_light_visibilities@,
        tick_step(a.sequences@, a.global_sequence_durations@, snap_of(a), delta) == tick_step(
            b.sequences@,
            b.global_sequence_durations@,
            snap_of(b),
            delta,
        ),
{
    lemma_det_weights(a, b);
    lemma_det_colors(a, b);
    lemma_det_transforms(a, b);
    lemma_det_bones(a, b);
    lemma_det_lights(a, b);
}

/// The wrap law: with nothing queued and nothing to queue, a tick of
/// `duration + x` from a fresh playhead lands exactly on `x`.
pub proof fn lemma_wrap(seqs: Seq<M2Sequence>, gdurs: Seq<u32>, s: TickSnap, x: u64, delta: u64)
    requires
        snap_wf(seqs, gdurs, s),
        s.next.animation_index is None,
        s.current.repeat_times <= 0,
        seqs[s.current.main_variation_index as int].variation_next == -1,
        s.current.animation_time == 0,
        seqs[s.current.animation_index.unwrap() as int].duration > 0,
        (x as int) < seqs[s.current.animation_index.unwrap() as int].duration as int,
        delta == seqs[s.current.animation_index.unwrap() as int].duration + x,
    ensures
        tick_step(seqs, gdurs, s, delta).current.animation_time == x,
        tick_step(seqs, gdurs, s, delta).current.animation_index
            == s.current.animation_index,
        tick_step(seqs, gdurs, s, delta).current.repeat_times == dec_i32(s.current.repeat_times),
    {
    let d = seqs[s.current.animation_index.unwrap() as int].duration;
    let s1 = phase_advance(gdurs, s, delta);
    assert(s1.current.animation_time == d + x);
    assert(!selection_applies(seqs, s1));
    let sa = phase_queue(seqs, s1);
    assert(sa == s1);
    let sb = phase_blend(seqs, sa);
    assert(sb.current == s1.current);
    assert(sb.next.animation_index is None);
    let sc = phase_commit(seqs, sb);
    assert(sc.current.animation_time == wrap_time((d + x) as u64, d));
    vstd::arithmetic::div_mod::lemma_add_mod_noop(d as int, x as int, d as int);
    vstd::arithmetic::div_mod::lemma_mod_self_0(d as int);
    vstd::arithmetic::div_mod::lemma_small_mod(x as nat, d as nat);
    assert(((d + x) as int) % (d as int) == x as int);
}

/// The blend boundary: after any tick, whenever nothing is queued or the
/// remaining time of the current clip is at least the queued clip's blend
/// window, the blend factor is exactly one.
pub proof fn lemma_blend_factor_one(seqs: Seq<M2Sequence>, gdurs: Seq<u32>, s: TickSnap, delta: u64)
    requires
        snap_wf(seqs, gdurs, s),
    ensures
        ({
            let s2 = tick_step(seqs, gdurs, s, delta);
            (s2.next.animation_index is None || seqs[s2.current.animation_index.unwrap() as int].duration
                - s2.current.animation_time >= seqs[s2.next.animation_index.unwrap() as int].blend_time)
                ==> s2.blend_num == s2.blend_den
        }),
{
    let s1 = phase_advance(gdurs, s, delta);
    let sa = phase_queue(seqs, s1);
    let sb = phase_blend(seqs, sa);
    let sc = phase_commit(seqs, sb);
}

/// Inside the blend window the factor is exactly `time_left / blend_time`,
/// and one outside it: the schedule of one tick, stated over the blend
/// phase itself.
pub proof fn lemma_blend_schedule(seqs: Seq<M2Sequence>, s: TickSnap)
    requires
        s.current.animation_index is Some,
    ensures
        ({
            let s2 = phase_blend(seqs, s);
            let dur = seqs[s.current.animation_index.unwrap() as int].duration;
            let tl: int = dur - s.current.animation_time;
            &&& (s.next.animation_index is None ==> s2.blend_num == s2.blend_den)
            &&& (s.next.animation_index is Some ==> {
                let bt = seqs[s.next.animation_index.unwrap() as int].blend_time;
                &&& ((bt == 0 || tl >= bt) ==> s2.blend_num == s2.blend_den)
                &&& ((bt > 0 && 0 <= tl < bt) ==> s2.blend_num == tl && s2.blend_den == bt)
            })
        }),
{
}

/// With the same blend window, a strictly smaller remaining time gives a
/// strictly smaller blend factor (compared as cross-multiplied rationals).
pub proof fn lemma_blend_factor_strictly_decreases(tl1: u64, tl2: u64, bt: u64)
    requires
        tl1 < tl2 < bt,
        0 < bt,
    ensures
        tl1 * bt < tl2 * bt,
{
    vstd::arithmetic::mul::lemma_mul_strict_inequality(tl1 as int, tl2 as int, bt as int);
}

/// Self-exclusion: on a two-clip chain rooted at the playing clip, the
/// walk never re-selects the playing clip when its weight alone is below
/// the drawn threshold — its weight never counts toward its own
/// reselection, so the walk moves on to the other clip.
pub proof fn lemma_variation_self_exclusion(
    seqs: Seq<M2Sequence>,
    c: usize,
    o: usize,
    prob: int,
    fuel: nat,
)
    requires
        seqs_wf(seqs),
        (c as int) < seqs.len(),
        (o as int) < seqs.len(),
        o != c,
        seqs[c as int].variation_next == o as i16,
        o <= 0x7fff,
        seqs[o as int].variation_next == -1,
        (seqs[c as int].frequency as int) < prob,
        fuel >= 1,
    ensures
        variation_walk(seqs, c as int, Some(c), 0, prob, fuel) == o as int,
        variation_walk(seqs, c as int, Some(c), 0, prob, fuel) != c as int,
{
    assert(seqs[c as int].variation_next > -1);
    assert(seqs[c as int].variation_next as int == o as int);
    reveal_with_fuel(variation_walk, 3);
}

} // verus!

verus! {

/// Keyframe sampling on a two-key linear row: a playhead at or before the
/// first key yields the first value, past the last key the last value, and
/// in between the exact rational mix `(time - t0) / (t1 - t0)`.
pub proof fn lemma_sample_two_keys<T>(t0: u32, t1: u32, v0: T, v1: T, time: u64, max_time: u32)
    requires
        t0 < t1,
        max_time != 0,
    ensures
        ({
            let plan = crate::track::row_plan(1u16, seq![t0, t1], seq![v0, v1], time, max_time);
            &&& time <= t0 ==> plan == SampleStep::<T>::Fixed(v0)
            &&& time > t1 ==> plan == SampleStep::<T>::Fixed(v1)
            &&& t0 < time <= t1 ==> plan == SampleStep::<T>::Mix(
                v0,
                v1,
                (time - t0) as u64,
                (t1 - t0) as u64,
            )
        }),
{
    let ts = seq![t0, t1];
    let vs = seq![v0, v1];
    assert(ts.len() == 2);
    assert(ts[0] == t0);
    assert(ts[1] == t1);
    reveal_with_fuel(crate::track::first_at_least, 3);
    if time <= t1 {
        if time <= t0 {
            assert(crate::track::first_at_least(ts, time) == 0);
        } else {
            assert(ts.skip(1).len() == 1);
            assert(ts.skip(1)[0] == t1);
            assert(crate::track::first_at_least(ts, time) == 1);
        }
    }
}

/// The exact-midpoint case for a 16-bit linear row: with an even key-pair
/// span and an even value span, sampling at the middle time yields exactly
/// the middle value.
pub proof fn lemma_sample_midpoint_u16(t0: u32, t1: u32, v0: u16, v1: u16, max_time: u32)
    requires
        t0 < t1,
        (t0 + t1) % 2 == 0,
        v0 <= v1,
        (v1 - v0) % 2 == 0,
        max_time != 0,
    ensures
        eval_step_u16_spec(
            crate::track::row_plan(
                1u16,
                seq![t0, t1],
                seq![v0, v1],
                (((t0 + t1) / 2) as u64),
                max_time,
            ),
        ) == (v0 + v1) / 2,
{
    let time: u64 = ((t0 + t1) / 2) as u64;
    assert(t0 < time <= t1);
    lemma_sample_two_keys(t0, t1, v0, v1, time, max_time);
    let num: int = time - t0;
    let den: int = t1 - t0;
    assert(den == 2 * num);
    let d: int = v1 - v0;
    let h: int = d / 2;
    assert(d == 2 * h);
    assert(d * num == h * (2 * num)) by (nonlinear_arith)
        requires d == 2 * h,
    ;
    vstd::arithmetic::div_mod::lemma_div_multiples_vanish(h, 2 * num);
    assert((2 * num) * h == h * (2 * num)) by (nonlinear_arith);
    assert(d * num / den == h);
    assert(v0 + h == (v0 + v1) / 2);
}

} // verus!
