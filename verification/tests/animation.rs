use animrt::manager::AnimationManager;
use animrt::manager::WORD_ONE;
use animrt::manager::AnimationState;
use animrt::manager::M2Sequence;
use animrt::rng::LcgRng;
use animrt::track::AnimationError;
use animrt::track::M2Track;
use animrt::track::RawQuat;
use animrt::track::RawVec3;
use animrt::track::SampleStep;
use animrt::track::WowArrayRef;

fn track_u16(interp: u16, gs: i16, ts: Vec<Vec<u32>>, vs: Vec<Vec<u16>>) -> M2Track<u16> {
    M2Track {
        interpolation_type: interp,
        global_sequence: gs,
        timestamps_unallocated: WowArrayRef { count: 0, offset: 0 },
        timestamps: Some(ts),
        values_unallocated: WowArrayRef { count: 0, offset: 0 },
        values: Some(vs),
    }
}

fn seq(id: u16, duration: u32, blend_time: u32, variation_next: i16, frequency: u16) -> M2Sequence {
    M2Sequence {
        id,
        sub_id: 0,
        duration,
        flags: 0,
        frequency,
        replay_min: 0,
        replay_max: 0,
        blend_time,
        variation_next,
        alias_next: 0,
    }
}

fn simple_manager(sequences: Vec<M2Sequence>, weights: Vec<M2Track<u16>>) -> AnimationManager {
    AnimationManager::new(
        Vec::new(),
        sequences,
        weights,
        Vec::new(),
        Vec::new(),
        Vec::new(),
        Vec::new(),
    )
    .expect("valid tables")
}

#[test]
fn rng_reproduces_fixed_draws() {
    let mut rng = LcgRng::new(1312);
    assert_eq!(rng.next_u16(), 7897);
    assert_eq!(rng.next_u16(), 28830);
    assert_eq!(rng.next_u16(), 18303);
}

#[test]
fn loop_in_place_scenario() {
    // A 1000 ms rest clip, no blending, no variations, repeat bounds [0, 0]:
    // one 1500 ms tick wraps the playhead to 500 and the repeat counter has
    // gone negative exactly once.
    let m0 = simple_manager(vec![seq(0, 1000, 0, -1, 0)], Vec::new());
    let mut m = m0;
    assert_eq!(m.current_animation.repeat_times, 0);
    m.update(1500);
    assert_eq!(m.current_animation.animation_time, 500);
    assert_eq!(m.current_animation.repeat_times, -1);
    assert_eq!(m.current_animation.animation_index, Some(0));
    assert_eq!(m.next_animation.animation_index, None);
}

#[test]
fn wrap_law_on_exact_overrun() {
    // Ticking duration + x from a fresh playhead lands exactly on x.
    let mut m = simple_manager(vec![seq(0, 1000, 0, -1, 0)], Vec::new());
    m.update(1000 + 300);
    assert_eq!(m.current_animation.animation_time, 300);
    assert_eq!(m.current_animation.animation_index, Some(0));
}

#[test]
fn tick_zero_is_idempotent_after_first_application() {
    let weights = vec![track_u16(1, -1, vec![vec![0, 1000]], vec![vec![0, 1000]])];
    let mut m = simple_manager(vec![seq(0, 1000, 0, -1, 0)], weights);
    m.update(250);
    m.update(0);
    let state_after_first = m.current_animation;
    let next_after_first = m.next_animation;
    let rng_after_first = m.rng.state;
    let outputs_after_first = m.calculated_transparencies.clone();
    let blend_after_first = (m.blend_num, m.blend_den);
    m.update(0);
    assert_eq!(m.current_animation, state_after_first);
    assert_eq!(m.next_animation, next_after_first);
    assert_eq!(m.rng.state, rng_after_first);
    assert_eq!(m.calculated_transparencies, outputs_after_first);
    assert_eq!((m.blend_num, m.blend_den), blend_after_first);
}

#[test]
fn determinism_across_instances() {
    let build = || {
        simple_manager(
            vec![seq(0, 1000, 0, 1, 100), seq(3, 400, 50, -1, 32667)],
            vec![track_u16(1, -1, vec![vec![0, 500, 900]], vec![vec![10, 20, 30]])],
        )
    };
    let mut a = build();
    let mut b = build();
    for delta in [7u64, 0, 250, 1000, 33, 5000] {
        a.update(delta);
        b.update(delta);
        assert_eq!(a.current_animation, b.current_animation);
        assert_eq!(a.next_animation, b.next_animation);
        assert_eq!(a.rng.state, b.rng.state);
        assert_eq!(a.calculated_transparencies, b.calculated_transparencies);
        assert_eq!((a.blend_num, a.blend_den), (b.blend_num, b.blend_den));
    }
}

#[test]
fn variation_selection_excludes_current() {
    // Two clips on one chain; the current clip's own weight never counts
    // toward its reselection, so the walk moves on to the other clip.
    let mut m = simple_manager(
        vec![seq(0, 1000, 0, 1, 0), seq(1, 800, 0, -1, 0x7fff)],
        Vec::new(),
    );
    m.update(1);
    assert_eq!(m.next_animation.animation_index, Some(1));
    assert_eq!(m.next_animation.animation_time, 0);
    assert_eq!(m.next_animation.main_variation_index, 0);
}

#[test]
fn repeat_queues_clone_with_decrement() {
    let mut m = simple_manager(vec![seq(0, 1000, 0, -1, 0)], Vec::new());
    m.current_animation.repeat_times = 3;
    m.update(10);
    assert_eq!(m.next_animation.animation_index, Some(0));
    assert_eq!(m.next_animation.repeat_times, 2);
    assert_eq!(m.next_animation.animation_time, 10);
}

#[test]
fn blend_window_sets_exact_factor() {
    let mut m = simple_manager(
        vec![seq(0, 1000, 0, -1, 0), seq(5, 700, 500, -1, 0)],
        Vec::new(),
    );
    m.next_animation = AnimationState {
        animation_index: Some(1),
        repeat_times: 0,
        animation_time: 0,
        main_variation_index: 0,
    };
    m.update(600);
    // time_left = 400 < blend_time = 500: factor is 400/500 and the queued
    // playhead advances by the eaten-in overrun.
    assert_eq!((m.blend_num, m.blend_den), (400, 500));
    assert_eq!(m.next_animation.animation_time, 100);
}

#[test]
fn blend_factor_is_one_outside_window() {
    let mut m = simple_manager(
        vec![seq(0, 1000, 0, -1, 0), seq(5, 700, 500, -1, 0)],
        Vec::new(),
    );
    m.next_animation = AnimationState {
        animation_index: Some(1),
        repeat_times: 0,
        animation_time: 0,
        main_variation_index: 0,
    };
    m.update(100);
    // time_left = 900 >= 500, no crossfade yet.
    assert_eq!(m.blend_num, m.blend_den);
}

#[test]
fn promotion_resolves_alias_chain() {
    let mut seqs = vec![seq(0, 100, 0, -1, 0), seq(1, 500, 0, -1, 0), seq(2, 500, 0, -1, 0)];
    // Clip 1 is an unresolved alias pointing at clip 2, which is resolved.
    seqs[1].flags = 0x40;
    seqs[1].alias_next = 2;
    seqs[2].flags = 0x20;
    let mut m = simple_manager(seqs, Vec::new());
    m.next_animation = AnimationState {
        animation_index: Some(1),
        repeat_times: 0,
        animation_time: 0,
        main_variation_index: 0,
    };
    m.update(150);
    assert_eq!(m.current_animation.animation_index, Some(2));
    assert_eq!(m.next_animation.animation_index, None);
    assert_eq!((m.blend_num, m.blend_den), (1, 1));
}

#[test]
fn global_sequence_clock_overrides_playhead() {
    let weights = vec![track_u16(1, 0, vec![vec![0, 100]], vec![vec![0, 100]])];
    let mut m = AnimationManager::new(
        vec![100],
        vec![seq(0, 1000, 0, -1, 0)],
        weights,
        Vec::new(),
        Vec::new(),
        Vec::new(),
        Vec::new(),
    )
    .expect("valid tables");
    m.update(250);
    assert_eq!(m.global_sequence_times, vec![50]);
    assert_eq!(m.calculated_transparencies, vec![50]);
}

#[test]
fn set_sequence_id_resets_playback() {
    let mut m = simple_manager(vec![seq(0, 1000, 0, -1, 0), seq(8, 300, 0, -1, 0)], Vec::new());
    m.update(400);
    m.set_sequence_id(8).expect("id 8 exists");
    assert_eq!(m.current_animation.animation_index, Some(1));
    assert_eq!(m.current_animation.animation_time, 0);
    assert_eq!(m.current_animation.main_variation_index, 1);
    assert_eq!(m.next_animation.animation_index, None);
}

#[test]
fn set_sequence_id_unknown_fails() {
    let mut m = simple_manager(vec![seq(0, 1000, 0, -1, 0)], Vec::new());
    assert_eq!(m.set_sequence_id(9), Err(AnimationError::SequenceNotFound(9)));
}

#[test]
fn construction_needs_rest_sequence() {
    let r = AnimationManager::new(
        Vec::new(),
        vec![seq(4, 1000, 0, -1, 0)],
        Vec::new(),
        Vec::new(),
        Vec::new(),
        Vec::new(),
        Vec::new(),
    );
    assert_eq!(r.err(), Some(AnimationError::SequenceNotFound(0)));
}

#[test]
fn construction_rejects_unknown_interpolation() {
    let weights = vec![track_u16(7, -1, vec![vec![0]], vec![vec![1]])];
    let r = AnimationManager::new(
        Vec::new(),
        vec![seq(0, 1000, 0, -1, 0)],
        weights,
        Vec::new(),
        Vec::new(),
        Vec::new(),
        Vec::new(),
    );
    assert_eq!(r.err(), Some(AnimationError::UnknownInterpolation(7)));
}

#[test]
fn construction_rejects_mismatched_rows() {
    let weights = vec![track_u16(0, -1, vec![vec![0, 10]], vec![vec![1]])];
    let r = AnimationManager::new(
        Vec::new(),
        vec![seq(0, 1000, 0, -1, 0)],
        weights,
        Vec::new(),
        Vec::new(),
        Vec::new(),
        Vec::new(),
    );
    assert_eq!(r.err(), Some(AnimationError::TrackLengthMismatch));
}

#[test]
fn construction_rejects_bad_variation_link() {
    let r = AnimationManager::new(
        Vec::new(),
        vec![seq(0, 1000, 0, 9, 0)],
        Vec::new(),
        Vec::new(),
        Vec::new(),
        Vec::new(),
        Vec::new(),
    );
    assert_eq!(r.err(), Some(AnimationError::BadSequenceLink));
}

#[test]
fn construction_rejects_inverted_replay_bounds() {
    let mut s = seq(0, 1000, 0, -1, 0);
    s.replay_min = 5;
    s.replay_max = 2;
    let r = AnimationManager::new(
        Vec::new(),
        vec![s],
        Vec::new(),
        Vec::new(),
        Vec::new(),
        Vec::new(),
        Vec::new(),
    );
    assert_eq!(r.err(), Some(AnimationError::BadReplayBounds));
}

#[test]
fn construction_rejects_missing_global_clock() {
    let weights = vec![track_u16(0, 3, vec![vec![0]], vec![vec![1]])];
    let r = AnimationManager::new(
        Vec::new(),
        vec![seq(0, 1000, 0, -1, 0)],
        weights,
        Vec::new(),
        Vec::new(),
        Vec::new(),
        Vec::new(),
    );
    assert_eq!(r.err(), Some(AnimationError::BadGlobalSequence));
}

#[test]
fn construction_rejects_unallocated_track() {
    let t = M2Track::<u16> {
        interpolation_type: 0,
        global_sequence: -1,
        timestamps_unallocated: WowArrayRef { count: 0, offset: 0 },
        timestamps: None,
        values_unallocated: WowArrayRef { count: 0, offset: 0 },
        values: None,
    };
    let r = AnimationManager::new(
        Vec::new(),
        vec![seq(0, 1000, 0, -1, 0)],
        vec![t],
        Vec::new(),
        Vec::new(),
        Vec::new(),
        Vec::new(),
    );
    assert_eq!(r.err(), Some(AnimationError::TrackNotAllocated));
}

#[test]
fn introspection_getters_report_tables() {
    let m = simple_manager(vec![seq(0, 1000, 0, -1, 0), seq(2, 10, 0, -1, 0)], Vec::new());
    assert_eq!(m.get_sequence_ids(), vec![0, 2]);
    assert_eq!(m.get_num_colors(), 0);
    assert_eq!(m.get_num_bones(), 0);
    assert_eq!(m.get_num_lights(), 0);
    assert_eq!(m.get_num_transformations(), 0);
    assert_eq!(m.get_num_texture_weights(), 0);
    assert_eq!(m.get_light_bones(), Vec::<i16>::new());
    assert_eq!(m.get_light_positions(), Vec::<u32>::new());
    assert_eq!(m.get_bone_parents(), Vec::<i16>::new());
    assert_eq!(m.get_bone_flags(), Vec::<u32>::new());
}

fn track_v3(ts: Vec<Vec<u32>>, vs: Vec<Vec<animrt::track::RawVec3>>) -> M2Track<animrt::track::RawVec3> {
    M2Track {
        interpolation_type: 0,
        global_sequence: -1,
        timestamps_unallocated: WowArrayRef { count: 0, offset: 0 },
        timestamps: Some(ts),
        values_unallocated: WowArrayRef { count: 0, offset: 0 },
        values: Some(vs),
    }
}

fn track_quat(ts: Vec<Vec<u32>>, vs: Vec<Vec<animrt::track::RawQuat>>) -> M2Track<animrt::track::RawQuat> {
    M2Track {
        interpolation_type: 0,
        global_sequence: -1,
        timestamps_unallocated: WowArrayRef { count: 0, offset: 0 },
        timestamps: Some(ts),
        values_unallocated: WowArrayRef { count: 0, offset: 0 },
        values: Some(vs),
    }
}

fn track_u8(ts: Vec<Vec<u32>>, vs: Vec<Vec<u8>>) -> M2Track<u8> {
    M2Track {
        interpolation_type: 0,
        global_sequence: -1,
        timestamps_unallocated: WowArrayRef { count: 0, offset: 0 },
        timestamps: Some(ts),
        values_unallocated: WowArrayRef { count: 0, offset: 0 },
        values: Some(vs),
    }
}

fn track_u32(ts: Vec<Vec<u32>>, vs: Vec<Vec<u32>>) -> M2Track<u32> {
    M2Track {
        interpolation_type: 0,
        global_sequence: -1,
        timestamps_unallocated: WowArrayRef { count: 0, offset: 0 },
        timestamps: Some(ts),
        values_unallocated: WowArrayRef { count: 0, offset: 0 },
        values: Some(vs),
    }
}

#[test]
fn construction_rejects_missing_bone_rotation() {
    let bone = animrt::manager::M2CompBone {
        key_bone_id: 0,
        flags: 0,
        parent_bone: -1,
        submesh_id: 0,
        bone_name_crc: 0,
        translation: track_v3(vec![], vec![]),
        rotation: None,
        scaling: track_v3(vec![], vec![]),
        pivot: RawVec3 { x: 0, y: 0, z: 0 },
    };
    let r = AnimationManager::new(
        Vec::new(),
        vec![seq(0, 1000, 0, -1, 0)],
        Vec::new(),
        Vec::new(),
        Vec::new(),
        vec![bone],
        Vec::new(),
    );
    assert_eq!(r.err(), Some(AnimationError::MissingRotation));
}

#[test]
fn update_resamples_every_owned_table() {
    let v3 = RawVec3 { x: 5, y: 6, z: 7 };
    let q = RawQuat { x: 1, y: 2, z: 3, w: 4 };
    let bone = animrt::manager::M2CompBone {
        key_bone_id: 0,
        flags: 0x8,
        parent_bone: -1,
        submesh_id: 0,
        bone_name_crc: 0,
        translation: track_v3(vec![vec![0]], vec![vec![v3]]),
        rotation: Some(track_quat(vec![vec![0]], vec![vec![q]])),
        scaling: track_v3(vec![], vec![]),
        pivot: RawVec3 { x: 9, y: 9, z: 9 },
    };
    let light = animrt::manager::M2Light {
        bone: 0,
        position: RawVec3 { x: 1, y: 2, z: 3 },
        ambient_color: track_v3(vec![], vec![]),
        ambient_intensity: track_u32(vec![vec![0]], vec![vec![WORD_ONE]]),
        diffuse_color: track_v3(vec![], vec![]),
        diffuse_intensity: track_u32(vec![], vec![]),
        attenuation_start: track_u32(vec![], vec![]),
        attenuation_end: track_u32(vec![], vec![]),
        visibility: track_u8(vec![vec![0]], vec![vec![1]]),
    };
    let transform = animrt::manager::M2TextureTransform {
        translation: track_v3(vec![vec![0]], vec![vec![v3]]),
        rotation: track_quat(vec![], vec![]),
        scaling: track_v3(vec![], vec![]),
    };
    let color = animrt::manager::M2Color {
        color: track_v3(vec![vec![0]], vec![vec![v3]]),
        alpha: track_u16(0, -1, vec![vec![0]], vec![vec![0x4000]]),
    };
    let mut m = AnimationManager::new(
        Vec::new(),
        vec![seq(0, 1000, 0, -1, 0)],
        Vec::new(),
        vec![transform],
        vec![color],
        vec![bone],
        vec![light],
    )
    .expect("valid tables");
    m.update(100);
    assert_eq!(m.calculated_colors.len(), 1);
    assert_eq!(m.calculated_colors[0].alpha, 0x4000);
    assert!(matches!(m.calculated_colors[0].rgb.first, SampleStep::Fixed(v) if v == v3));
    assert!(m.calculated_colors[0].rgb.second.is_none());
    assert_eq!(m.calculated_bone_translations.len(), 1);
    assert!(matches!(m.calculated_bone_translations[0].first, SampleStep::Fixed(v) if v == v3));
    assert!(matches!(m.calculated_bone_rotations[0].first, SampleStep::Fixed(v) if v == q));
    // The empty scaling track falls back to the identity scale words.
    assert!(matches!(
        m.calculated_bone_scalings[0].first,
        SampleStep::Fixed(v) if v == RawVec3 { x: 0x3F80_0000, y: 0x3F80_0000, z: 0x3F80_0000 }
    ));
    assert_eq!(m.calculated_light_visibilities, vec![1]);
    assert!(matches!(m.calculated_light_ambient_intensities[0].first, SampleStep::Fixed(v) if v == 0x3F80_0000));
    assert_eq!(m.calculated_texture_translations.len(), 1);
    // The empty texture rotation track falls back to the identity quaternion.
    assert!(matches!(
        m.calculated_texture_rotations[0].first,
        SampleStep::Fixed(v) if v == RawQuat { x: 0, y: 0, z: 0, w: 0x3F80_0000 }
    ));
    assert_eq!(m.get_bone_flags(), vec![0x8]);
    assert_eq!(m.get_bone_parents(), vec![-1]);
    assert_eq!(m.get_light_bones(), vec![0]);
    assert_eq!(m.get_light_positions(), vec![1, 2, 3]);
    assert_eq!(
        m.get_bone_pivots(),
        vec![RawVec3 { x: 9, y: 9, z: 9 }]
    );
}
