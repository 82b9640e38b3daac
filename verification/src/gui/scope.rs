//! The oscilloscope's view of the rolling sample window: where waves start,
//! which stretch of samples is shown, and how it is thinned to the width of
//! the screen.

use vstd::prelude::*;
use vstd::slice::slice_subrange;

verus! {

/// Whether a wave starts at `index`: the sample before is below zero, the
/// sample at `index` above.
pub open spec fn rises_at(samples: Seq<i64>, index: int) -> bool {
    0 < index < samples.len() && samples[index - 1] < 0 && samples[index] > 0
}

/// The indices at which a wave starts, in ascending order.
pub open spec fn wave_starts(samples: Seq<i64>) -> Seq<usize>
    decreases samples.len(),
{
    if samples.len() == 0 {
        Seq::empty()
    } else if rises_at(samples, samples.len() - 1) {
        wave_starts(samples.drop_last()).push((samples.len() - 1) as usize)
    } else {
        wave_starts(samples.drop_last())
    }
}

/// The wave starts are exactly the indices at which a wave starts, each once
/// and in ascending order.
pub proof fn law_wave_starts_are_the_rising_crossings(samples: Seq<i64>)
    requires
        samples.len() <= usize::MAX,
    ensures
        forall|k: int|
            0 <= k < wave_starts(samples).len() ==> rises_at(
                samples,
                (#[trigger] wave_starts(samples)[k]) as int,
            ),
        forall|k: int, l: int|
            0 <= k < l < wave_starts(samples).len() ==> (#[trigger] wave_starts(samples)[k]) < (
            #[trigger] wave_starts(samples)[l]),
        forall|i: int|
            rises_at(samples, i) && i <= usize::MAX ==> wave_starts(samples).contains(i as usize),
    decreases samples.len(),
{
    if samples.len() > 0 {
        let rest = samples.drop_last();
        law_wave_starts_are_the_rising_crossings(rest);
        let starts = wave_starts(samples);
        let before = wave_starts(rest);
        let last = samples.len() - 1;
        assert forall|i: int| i < last implies (rises_at(rest, i) <==> rises_at(samples, i)) by {
            if 0 < i < last {
                assert(rest[i - 1] == samples[i - 1] && rest[i] == samples[i]);
            }
        }
        assert forall|k: int| 0 <= k < before.len() implies (#[trigger] before[k]) < last by {
            assert(rises_at(rest, before[k] as int));
        }
        assert forall|k: int| 0 <= k < starts.len() implies rises_at(
            samples,
            (#[trigger] starts[k]) as int,
        ) by {
            if k < before.len() {
                assert(starts[k] == before[k]);
                assert(rises_at(rest, before[k] as int));
            }
        }
        assert forall|k: int, l: int| 0 <= k < l < starts.len() implies (#[trigger] starts[k]) < (
        #[trigger] starts[l]) by {
            assert(starts[k] == before[k]);
            if l < before.len() {
                assert(starts[l] == before[l]);
            }
        }
        assert forall|i: int| rises_at(samples, i) && i <= usize::MAX implies starts.contains(
            i as usize,
        ) by {
            if i == last {
                assert(starts[starts.len() - 1] == i as usize);
            } else {
                assert(rises_at(rest, i));
                assert(before.contains(i as usize));
                let k = choose|k: int| 0 <= k < before.len() && before[k] == i as usize;
                assert(starts[k] == i as usize);
            }
        }
    }
}

/// Finds the indices at which a wave starts: the signal goes from below zero
/// to above zero.
pub fn find_wave_starts(samples: &[i64]) -> (zero_crossings: Vec<usize>)
    ensures
        zero_crossings@ == wave_starts(samples@),
{
    let mut zero_crossings: Vec<usize> = Vec::new();
    let mut i: usize = 1;
    if samples.len() == 0 {
        return zero_crossings;
    }
    assert(wave_starts(samples@.take(1)) == Seq::<usize>::empty()) by {
        assert(wave_starts(samples@.take(1).drop_last()) == Seq::<usize>::empty());
    }
    while i < samples.len()
        invariant
            1 <= i <= samples.len(),
            zero_crossings@ == wave_starts(samples@.take(i as int)),
        decreases samples.len() - i,
    {
        assert(samples@.take(i + 1).drop_last() == samples@.take(i as int));
        if samples[i - 1] < 0 && samples[i] > 0 {
            zero_crossings.push(i);
        }
        i = i + 1;
    }
    assert(samples@.take(samples.len() as int) == samples@);
    zero_crossings
}

/// The `back`-th wave start counted from the last one.
pub open spec fn from_last(start_points: Seq<usize>, back: int) -> int {
    start_points[start_points.len() - 1 - back] as int
}

/// The start of the stretch that is shown: beginning at `start`, the stretch
/// is widened by two waves at a time for as long as it is no wider than the
/// screen and there are earlier waves.
pub open spec fn widened_start(
    start_points: Seq<usize>,
    width: int,
    start: int,
    waves: int,
) -> int
    decreases
        (if waves < start_points.len() {
            start_points.len() - waves
        } else {
            0
        }),
{
    if waves < 0 || waves >= start_points.len() {
        start
    } else if from_last(start_points, 0) - start <= width {
        widened_start(start_points, width, from_last(start_points, waves), waves + 2)
    } else {
        start
    }
}

/// The stretch of samples that is shown, as the index of its first sample and
/// the index behind its last: the whole window where there are no more than
/// `min_waves` wave starts; else the stretch from the wave start `min_waves`
/// before the last to the last wave start, or, where that is no wider than
/// the screen, a longer stretch of which the latest `width` samples are
/// shown.
pub open spec fn crop_window(
    length: int,
    start_points: Seq<usize>,
    width: int,
    min_waves: int,
) -> (int, int) {
    if min_waves >= start_points.len() {
        (0, length)
    } else {
        let end = from_last(start_points, 0);
        let first = from_last(start_points, min_waves);
        if end - first <= width {
            let start = widened_start(start_points, width, first, min_waves);
            let shown = if end - start + 1 < width {
                end - start + 1
            } else {
                width
            };
            (end + 1 - shown, end + 1)
        } else {
            (first, end + 1)
        }
    }
}

/// The wave starts are in ascending order and lie within `length` samples.
pub open spec fn starts_within(start_points: Seq<usize>, length: int) -> bool {
    &&& forall|k: int, l: int|
        0 <= k <= l < start_points.len() ==> (#[trigger] start_points[k]) <= (
        #[trigger] start_points[l])
    &&& forall|k: int| 0 <= k < start_points.len() ==> (#[trigger] start_points[k]) < length
}

/// Picks the stretch of samples that the oscilloscope shows, ending at the
/// last wave start.
pub fn crop_to_screen<'a>(
    samples: &'a [i64],
    start_points: Vec<usize>,
    width: usize,
    min_waves: usize,
) -> (shown: &'a [i64])
    requires
        starts_within(start_points@, samples@.len() as int),
    ensures
        0 <= crop_window(samples@.len() as int, start_points@, width as int, min_waves as int).0
            <= crop_window(samples@.len() as int, start_points@, width as int, min_waves as int).1
            <= samples@.len(),
        shown@ == samples@.subrange(
            crop_window(samples@.len() as int, start_points@, width as int, min_waves as int).0,
            crop_window(samples@.len() as int, start_points@, width as int, min_waves as int).1,
        ),
{
    let count = start_points.len();
    if samples.len() == 0 || min_waves >= count {
        assert(samples@.subrange(0, samples@.len() as int) == samples@);
        return samples;
    }
    let end_index = start_points[count - 1];
    let first = start_points[count - 1 - min_waves];
    let mut start_index = first;
    let mut waves = min_waves;
    while end_index - start_index <= width && waves < count
        invariant
            count == start_points@.len(),
            0 < count,
            starts_within(start_points@, samples@.len() as int),
            end_index == from_last(start_points@, 0),
            end_index < samples@.len(),
            samples@.len() <= usize::MAX,
            first <= end_index,
            min_waves <= waves,
            start_index <= end_index,
            widened_start(start_points@, width as int, start_index as int, waves as int)
                == widened_start(start_points@, width as int, first as int, min_waves as int),
        decreases
            (if waves < count {
                count - waves
            } else {
                0
            }),
    {
        let ghost before = (start_index, waves);
        start_index = start_points[count - 1 - waves];
        waves = if waves < usize::MAX - 1 {
            waves + 2
        } else {
            usize::MAX
        };
        assert(widened_start(start_points@, width as int, start_index as int, waves as int)
            == widened_start(start_points@, width as int, start_index as int, before.1 + 2));
    }
    if end_index - first <= width {
        let stretch = end_index - start_index + 1;
        let shown = if stretch < width {
            stretch
        } else {
            width
        };
        slice_subrange(samples, end_index + 1 - shown, end_index + 1)
    } else {
        slice_subrange(samples, start_index, end_index + 1)
    }
}

/// How a stretch of `length` samples is thinned to a screen of `width`
/// pixels, as the number of samples to skip at its start and the step from
/// one drawn sample to the next.
pub open spec fn zoom(length: int, width: int) -> (int, int) {
    if length <= width {
        (0, 1)
    } else if width == 0 {
        (0, usize::MAX as int)
    } else {
        (length % width, length / width)
    }
}

/// Thins a stretch of samples to the width of the screen: where there are
/// more samples than pixels, every `length / width`-th sample is drawn, and
/// the samples that do not fill a whole screen are skipped at the start.
pub fn zoom_to_screen(length: usize, width: usize) -> (skip_and_step: (usize, usize))
    ensures
        skip_and_step.0 == zoom(length as int, width as int).0,
        skip_and_step.1 == zoom(length as int, width as int).1,
        skip_and_step.0 <= length,
        skip_and_step.1 >= 1,
{
    if length <= width {
        (0, 1)
    } else if width == 0 {
        (0, usize::MAX)
    } else {
        assert(length / width >= 1) by (nonlinear_arith)
            requires
                0 < width < length,
        ;
        (length % width, length / width)
    }
}

} // verus!
