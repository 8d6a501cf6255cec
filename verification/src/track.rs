//! Keyframe tracks and the per-track sampling rule.
//!
//! A track stores, per animation sequence id, a sorted timestamp row and a
//! parallel value row. Sampling never mixes scalar values itself: it returns
//! an exact plan — either a single keyframe value or a pair of values with
//! the interpolation parameter as a rational `num / den` — so the decision
//! logic is fully verified while the host applies the plan to its own
//! scalar buffers. For integer-valued tracks the crate also evaluates the
//! plan exactly.

use vstd::prelude::*;

use crate::bytes::le32_at;

verus! {

/// Why loading or driving the animation tables failed. These are the hard
/// configuration failures; degenerate-but-valid data (an empty row, an
/// out-of-range per-sequence index) is instead absorbed by the documented
/// fallback rules of the sampler.
#[derive(Debug, Clone, Copy, PartialEq, Eq, Structural)]
pub enum AnimationError {
    /// A track carries an interpolation code other than step or linear.
    UnknownInterpolation(u16),
    /// No sequence in the registry has the requested id.
    SequenceNotFound(u16),
    /// A track row's timestamp and value lengths disagree.
    TrackLengthMismatch,
    /// A track is still unallocated where loaded data was required.
    TrackNotAllocated,
    /// An array header points past the end of the raw buffer.
    TruncatedData,
    /// A variation or alias link points outside the sequence registry.
    BadSequenceLink,
    /// A sequence's replay bounds are inverted or beyond the repeat range.
    BadReplayBounds,
    /// A bone is missing its expanded rotation track.
    MissingRotation,
    /// A track names a global sequence clock that does not exist.
    BadGlobalSequence,
}

/// A three-component value carried as opaque 32-bit scalar words. The crate
/// never inspects the words; the host encodes and decodes them.
#[derive(Debug, Clone, Copy, PartialEq, Eq, Structural)]
pub struct RawVec3 {
    pub x: u32,
    pub y: u32,
    pub z: u32,
}

/// A four-component (quaternion) value carried as opaque 32-bit scalar words.
#[derive(Debug, Clone, Copy, PartialEq, Eq, Structural)]
pub struct RawQuat {
    pub x: u32,
    pub y: u32,
    pub z: u32,
    pub w: u32,
}

/// A value kind that a track can store: it knows its fixed encoded width
/// and how it is decoded from the raw little-endian buffer.
pub trait TrackValue: Sized + Copy {
    spec fn byte_len() -> int;

    spec fn decode(bytes: Seq<u8>) -> Self;

    fn byte_size() -> (n: usize)
        ensures
            n == Self::byte_len(),
            1 <= n <= 16,
    ;

    fn read_at(data: &[u8], off: usize) -> (r: Self)
        requires
            off + Self::byte_len() <= data@.len(),
        ensures
            r == Self::decode(data@.subrange(off as int, off + Self::byte_len())),
    ;
}

impl TrackValue for u8 {
    open spec fn byte_len() -> int {
        1
    }

    open spec fn decode(bytes: Seq<u8>) -> Self {
        bytes[0]
    }

    fn byte_size() -> (n: usize) {
        1
    }

    fn read_at(data: &[u8], off: usize) -> (r: Self) {
        data[off]
    }
}

impl TrackValue for u16 {
    open spec fn byte_len() -> int {
        2
    }

    open spec fn decode(bytes: Seq<u8>) -> Self {
        crate::bytes::le16_at(bytes, 0)
    }

    fn byte_size() -> (n: usize) {
        2
    }

    fn read_at(data: &[u8], off: usize) -> (r: Self) {
        crate::bytes::read_le16(data, off)
    }
}

impl TrackValue for u32 {
    open spec fn byte_len() -> int {
        4
    }

    open spec fn decode(bytes: Seq<u8>) -> Self {
        le32_at(bytes, 0)
    }

    fn byte_size() -> (n: usize) {
        4
    }

    fn read_at(data: &[u8], off: usize) -> (r: Self) {
        crate::bytes::read_le32(data, off)
    }
}

impl TrackValue for RawVec3 {
    open spec fn byte_len() -> int {
        12
    }

    open spec fn decode(bytes: Seq<u8>) -> Self {
        RawVec3 { x: le32_at(bytes, 0), y: le32_at(bytes, 4), z: le32_at(bytes, 8) }
    }

    fn byte_size() -> (n: usize) {
        12
    }

    fn read_at(data: &[u8], off: usize) -> (r: Self) {
        let n: usize = data.len();
        let x: u32 = crate::bytes::read_le32(data, off);
        let y: u32 = crate::bytes::read_le32(data, off + 4);
        let z: u32 = crate::bytes::read_le32(data, off + 8);
        proof {
            let sub = data@.subrange(off as int, off + 12);
            assert(le32_at(sub, 0) == le32_at(data@, off as int));
            assert(le32_at(sub, 4) == le32_at(data@, off + 4));
            assert(le32_at(sub, 8) == le32_at(data@, off + 8));
        }
        RawVec3 { x, y, z }
    }
}

impl TrackValue for RawQuat {
    open spec fn byte_len() -> int {
        16
    }

    open spec fn decode(bytes: Seq<u8>) -> Self {
        RawQuat {
            x: le32_at(bytes, 0),
            y: le32_at(bytes, 4),
            z: le32_at(bytes, 8),
            w: le32_at(bytes, 12),
        }
    }

    fn byte_size() -> (n: usize) {
        16
    }

    fn read_at(data: &[u8], off: usize) -> (r: Self) {
        let n: usize = data.len();
        let x: u32 = crate::bytes::read_le32(data, off);
        let y: u32 = crate::bytes::read_le32(data, off + 4);
        let z: u32 = crate::bytes::read_le32(data, off + 8);
        let w: u32 = crate::bytes::read_le32(data, off + 12);
        proof {
            let sub = data@.subrange(off as int, off + 16);
            assert(le32_at(sub, 0) == le32_at(data@, off as int));
            assert(le32_at(sub, 4) == le32_at(data@, off + 4));
            assert(le32_at(sub, 8) == le32_at(data@, off + 8));
            assert(le32_at(sub, 12) == le32_at(data@, off + 12));
        }
        RawQuat { x, y, z, w }
    }
}

/// A pointer into the raw model buffer: an element count and the byte
/// offset where the elements start.
#[derive(Debug, Clone, Copy, PartialEq, Eq, Structural)]
pub struct WowArrayRef {
    pub count: u32,
    pub offset: u32,
}

/// Track rows before the header/value split is resolved: bare timestamp and
/// value tables without interpolation metadata.
#[derive(Debug, Clone)]
pub struct M2TrackPartial<T> {
    pub timestamps_unallocated: WowArrayRef,
    pub timestamps: Option<Vec<Vec<u32>>>,
    pub values_unallocated: WowArrayRef,
    pub values: Option<Vec<Vec<T>>>,
}

/// One keyframe track: an interpolation code (0 step, 1 linear), an
/// optional global-sequence clock index (negative means none), and one
/// timestamp/value row per animation sequence id. The rows stay
/// unallocated until `allocate` reads them out of the raw buffer.
#[derive(Debug, Clone)]
pub struct M2Track<T> {
    pub interpolation_type: u16,
    pub global_sequence: i16,
    pub timestamps_unallocated: WowArrayRef,
    pub timestamps: Option<Vec<Vec<u32>>>,
    pub values_unallocated: WowArrayRef,
    pub values: Option<Vec<Vec<T>>>,
}

impl<T> M2Track<T> {
    /// The timestamp rows, one `Seq` per animation sequence id.
    pub open spec fn ts(&self) -> Seq<Seq<u32>> {
        self.timestamps.unwrap()@.map_values(|row: Vec<u32>| row@)
    }

    /// The value rows, parallel to `ts`.
    pub open spec fn vs(&self) -> Seq<Seq<T>> {
        self.values.unwrap()@.map_values(|row: Vec<T>| row@)
    }

    /// A loaded, well-formed track: both tables present, rows parallel and
    /// of equal lengths, and a known interpolation code.
    pub open spec fn wf(&self) -> bool {
        &&& self.timestamps is Some
        &&& self.values is Some
        &&& self.ts().len() == self.vs().len()
        &&& forall|i: int|
            0 <= i < self.ts().len() ==> (#[trigger] self.ts()[i]).len() == self.vs()[i].len()
        &&& self.interpolation_type <= 1
    }

    /// A well-formed track whose global-sequence link, if any, stays inside
    /// a clock table of length `n_globals`.
    pub open spec fn wf_for(&self, n_globals: int) -> bool {
        &&& self.wf()
        &&& self.global_sequence >= 0 ==> (self.global_sequence as int) < n_globals
    }

    pub fn timestamps(&self) -> (r: &Vec<Vec<u32>>)
        requires
            self.timestamps is Some,
        ensures
            *r == self.timestamps.unwrap(),
    {
        self.timestamps.as_ref().unwrap()
    }

    pub fn values(&self) -> (r: &Vec<Vec<T>>)
        requires
            self.values is Some,
        ensures
            *r == self.values.unwrap(),
    {
        self.values.as_ref().unwrap()
    }
}

/// One sampled value, as an exact plan: either a keyframe value verbatim,
/// or two keyframe values with the interpolation parameter `num / den`
/// (the result is `a + (b - a) * num / den`).
#[derive(Debug, Clone, Copy)]
pub enum SampleStep<T> {
    Fixed(T),
    Mix(T, T, u64, u64),
}

/// The least index whose timestamp is at or past `time` (the row length if
/// there is none).
pub open spec fn first_at_least(ts: Seq<u32>, time: u64) -> int
    decreases ts.len(),
{
    if ts.len() == 0 {
        0
    } else if ts[0] >= time {
        0
    } else {
        1 + first_at_least(ts.skip(1), time)
    }
}

/// `first_at_least` is pinned down by its two defining properties.
pub proof fn lemma_first_at_least_is(ts: Seq<u32>, time: u64, k: int)
    requires
        0 <= k <= ts.len(),
        forall|j: int| 0 <= j < k ==> ts[j] < time,
        k < ts.len() ==> ts[k] >= time,
    ensures
        first_at_least(ts, time) == k,
    decreases ts.len(),
{
    if ts.len() == 0 {
    } else if ts[0] >= time {
        assert(k == 0);
    } else {
        let rest = ts.skip(1);
        assert(forall|j: int| 0 <= j < rest.len() ==> rest[j] == ts[j + 1]);
        lemma_first_at_least_is(rest, time, k - 1);
    }
}

/// The interpolation rule between two neighbouring keyframes. Step mode
/// keeps the left value; linear mode pins a playhead at or before the left
/// key (or a degenerate key pair) to the left value, and otherwise yields
/// the exact rational mix.
pub open spec fn interp_plan<T>(mode: u16, t1: u32, t2: u32, v1: T, v2: T, time: u64) -> SampleStep<
    T,
> {
    if mode == 0 {
        SampleStep::Fixed(v1)
    } else if time <= t1 {
        SampleStep::Fixed(v1)
    } else if t2 <= t1 {
        SampleStep::Fixed(v1)
    } else {
        SampleStep::Mix(v1, v2, (time - t1) as u64, (t2 - t1) as u64)
    }
}

/// Sampling one non-empty row: pick the keyframe index by the floor search
/// (pinning to index 0 when the clock is static or the playhead precedes
/// the first key, and to the last index when it is past the last key), then
/// return that value verbatim at the last index or interpolate toward the
/// next key otherwise.
pub open spec fn row_plan<T>(mode: u16, ts: Seq<u32>, vs: Seq<T>, time: u64, max_time: u32) -> SampleStep<
    T,
> {
    let ti: int = if max_time != 0 {
        if ts.len() > 1 {
            if time > ts[ts.len() - 1] {
                ts.len() - 1
            } else {
                let k = first_at_least(ts, time);
                if k != 0 {
                    k - 1
                } else {
                    0
                }
            }
        } else {
            0
        }
    } else {
        0
    };
    if ti == ts.len() - 1 {
        SampleStep::Fixed(vs[ti])
    } else {
        interp_plan(mode, ts[ti], ts[ti + 1], vs[ti], vs[ti + 1], time)
    }
}

/// Sampling a whole track at sequence `animation_index`: a global-sequence
/// link overrides both the playhead and the wrap length with the shared
/// clock's; a missing or empty row falls back to row 0, and an empty
/// fallback yields the caller's default.
pub open spec fn track_sample_spec<T>(
    track: M2Track<T>,
    curr_time: u64,
    animation_index: int,
    gtimes: Seq<u64>,
    gdurs: Seq<u32>,
    seq_duration: u32,
    default: T,
) -> SampleStep<T> {
    let time: u64 = if track.global_sequence >= 0 {
        gtimes[track.global_sequence as int]
    } else {
        curr_time
    };
    let max_time: u32 = if track.global_sequence >= 0 {
        gdurs[track.global_sequence as int]
    } else {
        seq_duration
    };
    let idx: int = if track.ts().len() <= animation_index {
        0
    } else {
        animation_index
    };
    if track.ts().len() == 0 {
        SampleStep::Fixed(default)
    } else if track.ts()[idx].len() == 0 {
        SampleStep::Fixed(default)
    } else {
        row_plan(track.interpolation_type, track.ts()[idx], track.vs()[idx], time, max_time)
    }
}

/// Samples `track` at `curr_time` for sequence `animation_index`, against
/// the shared global-sequence clocks, returning the exact plan that
/// `track_sample_spec` prescribes.
pub fn sample_track<T: Copy>(
    track: &M2Track<T>,
    curr_time: u64,
    animation_index: usize,
    gtimes: &Vec<u64>,
    gdurs: &Vec<u32>,
    seq_duration: u32,
    default: T,
) -> (r: SampleStep<T>)
    requires
        track.wf_for(gdurs@.len() as int),
        gtimes@.len() == gdurs@.len(),
    ensures
        r == track_sample_spec(
            *track,
            curr_time,
            animation_index as int,
            gtimes@,
            gdurs@,
            seq_duration,
            default,
        ),
{
    let mut time: u64 = curr_time;
    let mut max_time: u32 = seq_duration;
    if track.global_sequence >= 0 {
        let g: usize = track.global_sequence as usize;
        time = gtimes[g];
        max_time = gdurs[g];
    }

    let ts_tab: &Vec<Vec<u32>> = track.timestamps.as_ref().unwrap();
    let vs_tab: &Vec<Vec<T>> = track.values.as_ref().unwrap();

    let mut idx: usize = animation_index;
    if ts_tab.len() <= idx {
        idx = 0;
    }
    if ts_tab.len() == 0 {
        return SampleStep::Fixed(default);
    }
    if ts_tab[idx].len() == 0 {
        return SampleStep::Fixed(default);
    }

    let times: &Vec<u32> = &ts_tab[idx];
    let values: &Vec<T> = &vs_tab[idx];
    proof {
        assert(track.ts()[idx as int] == times@);
        assert(track.vs()[idx as int] == values@);
    }

    let mut ti: usize = 0;
    if max_time != 0 {
        if times.len() > 1 {
            let last: usize = times.len() - 1;
            if time > times[last] as u64 {
                ti = last;
            } else {
                let mut k: usize = 0;
                while k < times.len() && (times[k] as u64) < time
                    invariant
                        k <= times@.len(),
                        forall|j: int| 0 <= j < k ==> (times@[j] as u64) < time,
                    decreases times@.len() - k,
                {
                    k = k + 1;
                }
                proof {
                    if k == times@.len() {
                        assert((times@[times@.len() - 1] as u64) < time);
                        assert(false);
                    }
                    lemma_first_at_least_is(times@, time, k as int);
                }
                if k != 0 {
                    ti = k - 1;
                } else {
                    ti = 0;
                }
            }
        }
    }

    if ti == times.len() - 1 {
        SampleStep::Fixed(values[ti])
    } else {
        let t1: u32 = times[ti];
        let t2: u32 = times[ti + 1];
        let v1: T = values[ti];
        let v2: T = values[ti + 1];
        if track.interpolation_type == 0 {
            SampleStep::Fixed(v1)
        } else if time <= t1 as u64 {
            SampleStep::Fixed(v1)
        } else if t2 <= t1 {
            SampleStep::Fixed(v1)
        } else {
            SampleStep::Mix(v1, v2, time - (t1 as u64), (t2 - t1) as u64)
        }
    }
}

/// The exact integer mix `a + (b - a) * num / den`, truncated toward zero
/// and clamped into the 16-bit range (the plan's `den == 0` never arises
/// from sampling, but is absorbed as "keep the left value").
pub open spec fn lerp_u16(a: u16, b: u16, num: u64, den: u64) -> u16 {
    if den == 0 {
        a
    } else if b >= a {
        let up = (b - a) * num / (den as int);
        if a + up > 65535 {
            65535u16
        } else {
            (a + up) as u16
        }
    } else {
        let down = (a - b) * num / (den as int);
        if down > a {
            0u16
        } else {
            (a - down) as u16
        }
    }
}

/// The same mix for byte-valued tracks, clamped into the 8-bit range.
pub open spec fn lerp_u8(a: u8, b: u8, num: u64, den: u64) -> u8 {
    if den == 0 {
        a
    } else if b >= a {
        let up = (b - a) * num / (den as int);
        if a + up > 255 {
            255u8
        } else {
            (a + up) as u8
        }
    } else {
        let down = (a - b) * num / (den as int);
        if down > a {
            0u8
        } else {
            (a - down) as u8
        }
    }
}

/// What a plan evaluates to for a 16-bit track.
pub open spec fn eval_step_u16_spec(s: SampleStep<u16>) -> u16 {
    match s {
        SampleStep::Fixed(v) => v,
        SampleStep::Mix(a, b, num, den) => lerp_u16(a, b, num, den),
    }
}

/// What a plan evaluates to for a byte track.
pub open spec fn eval_step_u8_spec(s: SampleStep<u8>) -> u8 {
    match s {
        SampleStep::Fixed(v) => v,
        SampleStep::Mix(a, b, num, den) => lerp_u8(a, b, num, den),
    }
}

/// Evaluates a 16-bit plan exactly.
pub fn eval_step_u16(s: &SampleStep<u16>) -> (r: u16)
    ensures
        r == eval_step_u16_spec(*s),
{
    match s {
        SampleStep::Fixed(v) => *v,
        SampleStep::Mix(a, b, num, den) => {
            if *den == 0 {
                *a
            } else if *b >= *a {
                proof {
                    vstd::arithmetic::mul::lemma_mul_upper_bound(
                        (*b - *a) as int,
                        65535,
                        *num as int,
                        u64::MAX as int,
                    );
                }
                let up: u128 = ((*b - *a) as u128) * (*num as u128) / (*den as u128);
                if up > (65535 - *a) as u128 {
                    65535
                } else {
                    *a + (up as u16)
                }
            } else {
                proof {
                    vstd::arithmetic::mul::lemma_mul_upper_bound(
                        (*a - *b) as int,
                        65535,
                        *num as int,
                        u64::MAX as int,
                    );
                }
                let down: u128 = ((*a - *b) as u128) * (*num as u128) / (*den as u128);
                if down > *a as u128 {
                    0
                } else {
                    *a - (down as u16)
                }
            }
        },
    }
}

/// Evaluates a byte plan exactly.
pub fn eval_step_u8(s: &SampleStep<u8>) -> (r: u8)
    ensures
        r == eval_step_u8_spec(*s),
{
    match s {
        SampleStep::Fixed(v) => *v,
        SampleStep::Mix(a, b, num, den) => {
            if *den == 0 {
                *a
            } else if *b >= *a {
                proof {
                    vstd::arithmetic::mul::lemma_mul_upper_bound(
                        (*b - *a) as int,
                        65535,
                        *num as int,
                        u64::MAX as int,
                    );
                }
                let up: u128 = ((*b - *a) as u128) * (*num as u128) / (*den as u128);
                if up > (255 - *a) as u128 {
                    255
                } else {
                    *a + (up as u8)
                }
            } else {
                proof {
                    vstd::arithmetic::mul::lemma_mul_upper_bound(
                        (*a - *b) as int,
                        65535,
                        *num as int,
                        u64::MAX as int,
                    );
                }
                let down: u128 = ((*a - *b) as u128) * (*num as u128) / (*den as u128);
                if down > *a as u128 {
                    0
                } else {
                    *a - (down as u8)
                }
            }
        },
    }
}

} // verus!

// The load step: resolving the array headers against the raw buffer.

use vstd::arithmetic::mul::lemma_mul_inequality;
use vstd::arithmetic::mul::lemma_mul_upper_bound;

verus! {

/// The header table is in bounds: `count` 8-byte headers fit at `offset`.
pub open spec fn outer_ok(data: Seq<u8>, outer: WowArrayRef) -> bool {
    outer.offset + 8 * outer.count <= data.len()
}

/// The `i`-th inner header of an outer table: an element count followed by
/// a byte offset.
pub open spec fn inner_ref(data: Seq<u8>, outer: WowArrayRef, i: int) -> WowArrayRef {
    WowArrayRef {
        count: le32_at(data, outer.offset + 8 * i),
        offset: le32_at(data, outer.offset + 8 * i + 4),
    }
}

/// An element row is in bounds: `count` elements of `width` bytes fit.
pub open spec fn inner_ok(data: Seq<u8>, r: WowArrayRef, width: int) -> bool {
    r.offset + width * r.count <= data.len()
}

/// The whole two-level table is in bounds for elements of `width` bytes.
pub open spec fn table_ok(data: Seq<u8>, outer: WowArrayRef, width: int) -> bool {
    &&& outer_ok(data, outer)
    &&& forall|i: int|
        0 <= i < outer.count ==> inner_ok(data, #[trigger] inner_ref(data, outer, i), width)
}

/// One timestamp row read out of the buffer.
pub open spec fn ts_row(data: Seq<u8>, r: WowArrayRef) -> Seq<u32> {
    Seq::new(r.count as nat, |j: int| le32_at(data, r.offset + 4 * j))
}

/// The full timestamp table named by an outer header.
pub open spec fn ts_table(data: Seq<u8>, outer: WowArrayRef) -> Seq<Seq<u32>> {
    Seq::new(outer.count as nat, |i: int| ts_row(data, inner_ref(data, outer, i)))
}

/// One value row read out of the buffer.
pub open spec fn val_row<T: TrackValue>(data: Seq<u8>, r: WowArrayRef) -> Seq<T> {
    Seq::new(
        r.count as nat,
        |j: int|
            T::decode(
                data.subrange(r.offset + T::byte_len() * j, r.offset + T::byte_len() * (j + 1)),
            ),
    )
}

/// The full value table named by an outer header.
pub open spec fn val_table<T: TrackValue>(data: Seq<u8>, outer: WowArrayRef) -> Seq<Seq<T>> {
    Seq::new(outer.count as nat, |i: int| val_row::<T>(data, inner_ref(data, outer, i)))
}

fn read_refs(data: &[u8], outer: WowArrayRef) -> (r: Option<Vec<WowArrayRef>>)
    ensures
        r is Some <==> outer_ok(data@, outer),
        r matches Some(v) ==> {
            &&& v@.len() == outer.count
            &&& forall|i: int| 0 <= i < outer.count ==> v@[i] == inner_ref(data@, outer, i)
        },
{
    let n: usize = data.len();
    let end: u64 = (outer.offset as u64) + 8u64 * (outer.count as u64);
    if end > n as u64 {
        return None;
    }
    let mut refs: Vec<WowArrayRef> = Vec::new();
    let mut i: usize = 0;
    while i < outer.count as usize
        invariant
            i <= outer.count,
            outer_ok(data@, outer),
            data@.len() == n,
            refs@.len() == i,
            forall|k: int| 0 <= k < i ==> refs@[k] == inner_ref(data@, outer, k),
        decreases outer.count - i,
    {
        proof {
            lemma_mul_inequality(i as int + 1, outer.count as int, 8);
        }
        let base: usize = (outer.offset as usize) + 8 * i;
        let count: u32 = crate::bytes::read_le32(data, base);
        let offset: u32 = crate::bytes::read_le32(data, base + 4);
        refs.push(WowArrayRef { count, offset });
        i = i + 1;
    }
    Some(refs)
}

fn read_ts_row(data: &[u8], r: WowArrayRef) -> (out: Option<Vec<u32>>)
    ensures
        out is Some <==> inner_ok(data@, r, 4),
        out matches Some(v) ==> v@ == ts_row(data@, r),
{
    let n: usize = data.len();
    let end: u64 = (r.offset as u64) + 4u64 * (r.count as u64);
    if end > n as u64 {
        return None;
    }
    let mut row: Vec<u32> = Vec::new();
    let mut j: usize = 0;
    while j < r.count as usize
        invariant
            j <= r.count,
            inner_ok(data@, r, 4),
            data@.len() == n,
            row@.len() == j,
            forall|k: int| 0 <= k < j ==> row@[k] == le32_at(data@, r.offset + 4 * k),
        decreases r.count - j,
    {
        proof {
            lemma_mul_inequality(j as int + 1, r.count as int, 4);
        }
        let v: u32 = crate::bytes::read_le32(data, (r.offset as usize) + 4 * j);
        row.push(v);
        j = j + 1;
    }
    proof {
        assert(row@ =~= ts_row(data@, r));
    }
    Some(row)
}

fn read_val_row<T: TrackValue>(data: &[u8], r: WowArrayRef) -> (out: Option<Vec<T>>)
    ensures
        out is Some <==> inner_ok(data@, r, T::byte_len()),
        out matches Some(v) ==> v@ == val_row::<T>(data@, r),
{
    let n: usize = data.len();
    let w: usize = T::byte_size();
    proof {
        lemma_mul_upper_bound(T::byte_len(), 16, r.count as int, 0xffff_ffff);
    }
    let end: u64 = (r.offset as u64) + (w as u64) * (r.count as u64);
    if end > n as u64 {
        return None;
    }
    let mut row: Vec<T> = Vec::new();
    let mut j: usize = 0;
    while j < r.count as usize
        invariant
            j <= r.count,
            inner_ok(data@, r, T::byte_len()),
            w == T::byte_len(),
            1 <= w <= 16,
            data@.len() == n,
            row@.len() == j,
            forall|k: int| 0 <= k < j ==> row@[k] == val_row::<T>(data@, r)[k],
        decreases r.count - j,
    {
        proof {
            lemma_mul_inequality(j as int + 1, r.count as int, w as int);
            lemma_mul_inequality(j as int, r.count as int, w as int);
            vstd::arithmetic::mul::lemma_mul_is_distributive_add(w as int, j as int, 1);
            vstd::arithmetic::mul::lemma_mul_is_commutative(w as int, j as int);
            vstd::arithmetic::mul::lemma_mul_is_commutative(w as int, j as int + 1);
            vstd::arithmetic::mul::lemma_mul_is_commutative(w as int, r.count as int);
        }
        let v: T = T::read_at(data, (r.offset as usize) + w * j);
        proof {
            assert(val_row::<T>(data@, r)[j as int] == T::decode(
                data@.subrange(
                    r.offset + T::byte_len() * (j as int),
                    r.offset + T::byte_len() * (j as int + 1),
                ),
            ));
        }
        row.push(v);
        j = j + 1;
    }
    proof {
        assert(row@ =~= val_row::<T>(data@, r));
    }
    Some(row)
}

impl<T: TrackValue> M2Track<T> {
    /// Resolves both array headers against the raw buffer, filling the
    /// timestamp and value rows. Fails without touching the value table
    /// when any header points past the end of the buffer.
    pub fn allocate(&mut self, data: &[u8]) -> (r: Result<(), AnimationError>)
        ensures
            final(self).interpolation_type == old(self).interpolation_type,
            final(self).global_sequence == old(self).global_sequence,
            final(self).timestamps_unallocated == old(self).timestamps_unallocated,
            final(self).values_unallocated == old(self).values_unallocated,
            r is Ok <==> table_ok(data@, old(self).timestamps_unallocated, 4) && table_ok(
                data@,
                old(self).values_unallocated,
                T::byte_len(),
            ),
            table_ok(data@, old(self).timestamps_unallocated, 4) ==> {
                &&& final(self).timestamps is Some
                &&& final(self).ts() == ts_table(data@, old(self).timestamps_unallocated)
            },
            !table_ok(data@, old(self).timestamps_unallocated, 4) ==> final(self).timestamps
                == old(self).timestamps,
            r is Ok ==> {
                &&& final(self).values is Some
                &&& final(self).vs() == val_table::<T>(data@, old(self).values_unallocated)
            },
            r is Err ==> final(self).values == old(self).values,
    {
        let ts_outer: WowArrayRef = self.timestamps_unallocated;
        let vs_outer: WowArrayRef = self.values_unallocated;

        let ts_refs: Vec<WowArrayRef> = match read_refs(data, ts_outer) {
            Some(v) => v,
            None => {
                return Err(AnimationError::TruncatedData);
            },
        };
        let mut ts_rows: Vec<Vec<u32>> = Vec::new();
        let mut i: usize = 0;
        while i < ts_refs.len()
            invariant
                i <= ts_refs@.len(),
                ts_refs@.len() == ts_outer.count,
                outer_ok(data@, ts_outer),
                forall|k: int| 0 <= k < ts_outer.count ==> ts_refs@[k] == inner_ref(data@, ts_outer, k),
                ts_rows@.len() == i,
                forall|k: int|
                    0 <= k < i ==> inner_ok(data@, #[trigger] inner_ref(data@, ts_outer, k), 4),
                forall|k: int|
                    0 <= k < i ==> (#[trigger] ts_rows@[k])@ == ts_row(
                        data@,
                        inner_ref(data@, ts_outer, k),
                    ),
                *self == *old(self),
                ts_outer == old(self).timestamps_unallocated,
            decreases ts_refs@.len() - i,
        {
            let row: Vec<u32> = match read_ts_row(data, ts_refs[i]) {
                Some(v) => v,
                None => {
                    proof {
                        assert(ts_refs@[i as int] == inner_ref(data@, ts_outer, i as int));
                        assert(!table_ok(data@, ts_outer, 4));
                    }
                    return Err(AnimationError::TruncatedData);
                },
            };
            ts_rows.push(row);
            i = i + 1;
        }
        proof {
            assert(table_ok(data@, ts_outer, 4));
            assert(ts_rows@.map_values(|row: Vec<u32>| row@) =~~= ts_table(data@, ts_outer));
        }
        self.timestamps = Some(ts_rows);

        let vs_refs: Vec<WowArrayRef> = match read_refs(data, vs_outer) {
            Some(v) => v,
            None => {
                return Err(AnimationError::TruncatedData);
            },
        };
        let mut vs_rows: Vec<Vec<T>> = Vec::new();
        let mut j: usize = 0;
        while j < vs_refs.len()
            invariant
                j <= vs_refs@.len(),
                vs_refs@.len() == vs_outer.count,
                outer_ok(data@, vs_outer),
                forall|k: int| 0 <= k < vs_outer.count ==> vs_refs@[k] == inner_ref(data@, vs_outer, k),
                vs_rows@.len() == j,
                forall|k: int|
                    0 <= k < j ==> inner_ok(
                        data@,
                        #[trigger] inner_ref(data@, vs_outer, k),
                        T::byte_len(),
                    ),
                forall|k: int|
                    0 <= k < j ==> (#[trigger] vs_rows@[k])@ == val_row::<T>(
                        data@,
                        inner_ref(data@, vs_outer, k),
                    ),
                self.timestamps is Some,
                self.ts() == ts_table(data@, old(self).timestamps_unallocated),
                self.interpolation_type == old(self).interpolation_type,
                self.global_sequence == old(self).global_sequence,
                self.timestamps_unallocated == old(self).timestamps_unallocated,
                self.values_unallocated == old(self).values_unallocated,
                self.values == old(self).values,
                vs_outer == old(self).values_unallocated,
                table_ok(data@, old(self).timestamps_unallocated, 4),
            decreases vs_refs@.len() - j,
        {
            let row: Vec<T> = match read_val_row::<T>(data, vs_refs[j]) {
                Some(v) => v,
                None => {
                    proof {
                        assert(vs_refs@[j as int] == inner_ref(data@, vs_outer, j as int));
                        assert(!table_ok(data@, vs_outer, T::byte_len()));
                    }
                    return Err(AnimationError::TruncatedData);
                },
            };
            vs_rows.push(row);
            j = j + 1;
        }
        proof {
            assert(table_ok(data@, vs_outer, T::byte_len()));
            assert(vs_rows@.map_values(|row: Vec<T>| row@) =~~= val_table::<T>(data@, vs_outer));
        }
        self.values = Some(vs_rows);
        Ok(())
    }
}

} // verus!
