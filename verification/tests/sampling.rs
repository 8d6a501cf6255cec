use animrt::manager::ALPHA_OPAQUE;
use animrt::manager::AnimationManager;
use animrt::manager::M2Sequence;
use animrt::track::M2Track;
use animrt::track::SampleStep;
use animrt::track::WowArrayRef;
use animrt::track::eval_step_u16;
use animrt::track::sample_track;

fn track_u16(interp: u16, ts: Vec<Vec<u32>>, vs: Vec<Vec<u16>>) -> M2Track<u16> {
    M2Track {
        interpolation_type: interp,
        global_sequence: -1,
        timestamps_unallocated: WowArrayRef { count: 0, offset: 0 },
        timestamps: Some(ts),
        values_unallocated: WowArrayRef { count: 0, offset: 0 },
        values: Some(vs),
    }
}

fn seq(id: u16, duration: u32) -> M2Sequence {
    M2Sequence {
        id,
        sub_id: 0,
        duration,
        flags: 0,
        frequency: 0,
        replay_min: 0,
        replay_max: 0,
        blend_time: 0,
        variation_next: -1,
        alias_next: 0,
    }
}

fn sample_at(track: &M2Track<u16>, time: u64) -> SampleStep<u16> {
    sample_track(track, time, 0, &Vec::new(), &Vec::new(), 1000, 0)
}

#[test]
fn linear_midpoint_is_exact() {
    let t = track_u16(1, vec![vec![0, 1000]], vec![vec![100, 200]]);
    match sample_at(&t, 500) {
        SampleStep::Mix(a, b, num, den) => {
            assert_eq!((a, b, num, den), (100, 200, 500, 1000));
        }
        SampleStep::Fixed(_) => panic!("midpoint must interpolate"),
    }
    assert_eq!(eval_step_u16(&sample_at(&t, 500)), 150);
}

#[test]
fn linear_clamps_before_first_key() {
    let t = track_u16(1, vec![vec![100, 1000]], vec![vec![40, 200]]);
    assert_eq!(eval_step_u16(&sample_at(&t, 0)), 40);
    assert_eq!(eval_step_u16(&sample_at(&t, 100)), 40);
}

#[test]
fn linear_pins_at_and_after_last_key() {
    let t = track_u16(1, vec![vec![0, 1000]], vec![vec![100, 200]]);
    assert_eq!(eval_step_u16(&sample_at(&t, 1000)), 200);
    assert_eq!(eval_step_u16(&sample_at(&t, 5000)), 200);
}

#[test]
fn step_mode_keeps_left_value() {
    let t = track_u16(0, vec![vec![0, 1000]], vec![vec![100, 200]]);
    assert_eq!(eval_step_u16(&sample_at(&t, 999)), 100);
    assert_eq!(eval_step_u16(&sample_at(&t, 1000)), 100);
    assert_eq!(eval_step_u16(&sample_at(&t, 1001)), 200);
}

#[test]
fn empty_rows_fall_back_to_default() {
    let t = track_u16(1, vec![], vec![]);
    match sample_at(&t, 123) {
        SampleStep::Fixed(v) => assert_eq!(v, 0),
        SampleStep::Mix(..) => panic!("empty track must yield the default"),
    }
    // A missing per-sequence row falls back to row 0.
    let t2 = track_u16(0, vec![vec![0]], vec![vec![77]]);
    let got = sample_track(&t2, 5, 9, &Vec::new(), &Vec::new(), 1000, 0);
    assert_eq!(eval_step_u16(&got), 77);
}

#[test]
fn single_keyframe_is_static() {
    let t = track_u16(1, vec![vec![300]], vec![vec![123]]);
    assert_eq!(eval_step_u16(&sample_at(&t, 0)), 123);
    assert_eq!(eval_step_u16(&sample_at(&t, 10_000)), 123);
}

#[test]
fn opaque_constant_weight_resamples_to_full_opacity() {
    // A texture-weight track pinned at 0x7fff must come out as exactly 1.0
    // after the host's division by 0x7fff.
    let weights = vec![track_u16(1, vec![vec![0, 400]], vec![vec![ALPHA_OPAQUE, ALPHA_OPAQUE]])];
    let mut m = AnimationManager::new(
        Vec::new(),
        vec![seq(0, 1000)],
        weights,
        Vec::new(),
        Vec::new(),
        Vec::new(),
        Vec::new(),
    )
    .expect("valid tables");
    for delta in [0u64, 1, 199, 400, 1000, 2500] {
        m.update(delta);
        assert_eq!(m.calculated_transparencies, vec![ALPHA_OPAQUE]);
        assert_eq!(m.calculated_transparencies[0] as f32 / 0x7fff as f32, 1.0);
    }
}

#[test]
fn allocate_reads_rows_from_raw_buffer() {
    // One timestamp row of two u32 keys and one value row of two u16
    // values, laid out little-endian behind two header tables.
    let mut data = vec![0u8; 64];
    // timestamps outer at 0: one inner header at offset 16
    let put32 = |d: &mut Vec<u8>, at: usize, v: u32| d[at..at + 4].copy_from_slice(&v.to_le_bytes());
    put32(&mut data, 16, 2); // inner count
    put32(&mut data, 20, 32); // inner offset
    put32(&mut data, 32, 100); // key 0
    put32(&mut data, 36, 900); // key 1
    // values outer: one inner header at offset 24
    put32(&mut data, 24, 2);
    put32(&mut data, 28, 40);
    data[40..42].copy_from_slice(&7u16.to_le_bytes());
    data[42..44].copy_from_slice(&9u16.to_le_bytes());
    let mut t = M2Track::<u16> {
        interpolation_type: 1,
        global_sequence: -1,
        timestamps_unallocated: WowArrayRef { count: 1, offset: 16 },
        timestamps: None,
        values_unallocated: WowArrayRef { count: 1, offset: 24 },
        values: None,
    };
    t.allocate(&data).expect("well-formed buffer");
    assert_eq!(t.timestamps, Some(vec![vec![100, 900]]));
    assert_eq!(t.values, Some(vec![vec![7, 9]]));
    assert_eq!(t.timestamps().len(), 1);
    assert_eq!(t.values().len(), 1);
}

#[test]
fn allocate_rejects_truncated_buffer() {
    let data = vec![0u8; 8];
    let mut t = M2Track::<u16> {
        interpolation_type: 1,
        global_sequence: -1,
        timestamps_unallocated: WowArrayRef { count: 4, offset: 0 },
        timestamps: None,
        values_unallocated: WowArrayRef { count: 0, offset: 0 },
        values: None,
    };
    assert!(t.allocate(&data).is_err());
    assert_eq!(t.timestamps, None);
}
