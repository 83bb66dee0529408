//! What goes into one spectrum and how its bins are laid out.
//!
//! A spectrum is taken over one window of samples. The transform of a window
//! of `n` real samples has `n / 2 + 1` bins, from the constant part up to
//! half the sample rate. A spectrum keeps `n / 2` of them, the highest
//! frequency first: the bin at half the sample rate is dropped, and the
//! first row of an image is the bin just below it.
use crate::iter::OverlappingWindowIter;
use vstd::prelude::*;
use vstd::std_specs::iter::IteratorSpec;

verus! {

/// The number of rows of a spectrum taken over `window_size` samples.
pub fn spectrum_len(window_size: usize) -> (len: usize)
    ensures
        len == window_size / 2,
{
    window_size / 2
}

/// The number of bins that the transform of `window_size` real samples has.
pub fn transform_len(window_size: usize) -> (len: usize)
    ensures
        len == window_size / 2 + 1,
{
    window_size / 2 + 1
}

/// The bin of the transform that row `row` of a spectrum shows.
pub fn bin_of_row(window_size: usize, row: usize) -> (bin: usize)
    requires
        row < window_size / 2,
    ensures
        bin == window_size / 2 - 1 - row,
{
    window_size / 2 - 1 - row
}

/// The rows of a spectrum, given the bins of the transform from the lowest
/// frequency on: the last bin is dropped and the others are turned round.
pub open spec fn arranged<T>(bins: Seq<T>) -> Seq<T> {
    if bins.len() == 0 {
        bins
    } else {
        Seq::new((bins.len() - 1) as nat, |row: int| bins[bins.len() - 2 - row])
    }
}

/// Lays the bins of a transform out as the rows of a spectrum.
pub fn arrange_spectrum<T>(bins: Vec<T>) -> (rows: Vec<T>)
    ensures
        rows@ == arranged(bins@),
{
    let mut bins = bins;
    let ghost all = bins@;
    let mut rows: Vec<T> = Vec::new();
    if bins.len() == 0 {
        return bins;
    }
    let _ = bins.pop();
    assert(bins@ =~= all.take(all.len() - 1));
    while bins.len() > 0
        invariant
            all.len() > 0,
            bins@.len() + rows@.len() == all.len() - 1,
            bins@ == all.take(bins@.len() as int),
            forall|row: int|
                0 <= row < rows@.len() ==> #[trigger] rows@[row] == all[all.len() - 2 - row],
        decreases bins@.len(),
    {
        let ghost left = bins@.len() as int;
        match bins.pop() {
            Some(bin) => {
                assert(bin == all.take(left)[left - 1]);
                rows.push(bin);
                assert(bins@ =~= all.take(left - 1));
            },
            None => {},
        }
    }
    assert(rows@ =~= arranged(all));
    rows
}

/// What one spectrum is taken from.
#[derive(Clone, Debug)]
pub struct ChunkInput<T, S, U> {
    /// The time of the first sample of the window.
    pub time: T,
    /// The samples of the window.
    pub samples: Vec<S>,
    /// The throttle in the middle of the window.
    pub throttle: U,
}

/// The next input of a spectrum from three samplers that run side by side
/// over the times, the samples and the throttle of one flight: the first
/// time of the next window, all its samples, and the throttle at its middle.
///
/// The samplers are asked in this order, and the first that has no window
/// left ends the run: those after it are not asked.
pub fn next_chunk_input<I: Iterator, J: Iterator, K: Iterator>(
    times: &mut OverlappingWindowIter<I>,
    values: &mut OverlappingWindowIter<J>,
    throttle: &mut OverlappingWindowIter<K>,
) -> (input: Option<ChunkInput<I::Item, J::Item, K::Item>>) where
    I::Item: Clone,
    J::Item: Clone,
    K::Item: Clone,

    requires
        old(times)@.wf(),
        old(values)@.wf(),
        old(throttle)@.wf(),
        old(times)@.window_size > 0,
        old(throttle)@.window_size > 0,
    ensures
        final(times)@.wf(),
        final(values)@.wf(),
        final(throttle)@.wf(),
        final(times)@.window_size == old(times)@.window_size,
        final(times)@.step_size == old(times)@.step_size,
        final(values)@.window_size == old(values)@.window_size,
        final(values)@.step_size == old(values)@.step_size,
        final(throttle)@.window_size == old(throttle)@.window_size,
        final(throttle)@.step_size == old(throttle)@.step_size,
        input matches Some(chunk) ==> {
            &&& cloned(final(times)@.held[0], chunk.time)
            &&& chunk.samples@.len() == final(values)@.window_size
            &&& forall|i: int|
                0 <= i < chunk.samples@.len() ==> cloned(
                    final(values)@.held[i],
                    #[trigger] chunk.samples@[i],
                )
            &&& cloned(
                final(throttle)@.held[final(throttle)@.window_size as int / 2],
                chunk.throttle,
            )
        },
        old(times).source().obeys_prophetic_iter_laws() ==> final(times)@ == old(times)@.advance(
            old(times).source().remaining(),
        ),
        old(times).source().obeys_prophetic_iter_laws() && old(
            values,
        ).source().obeys_prophetic_iter_laws() ==> final(values)@ == if old(times)@.yields(
            old(times).source().remaining(),
        ) {
            old(values)@.advance(old(values).source().remaining())
        } else {
            old(values)@
        },
        old(times).source().obeys_prophetic_iter_laws() && old(
            values,
        ).source().obeys_prophetic_iter_laws() && old(
            throttle,
        ).source().obeys_prophetic_iter_laws() ==> {
            &&& final(throttle)@ == if old(times)@.yields(old(times).source().remaining()) && old(
                values,
            )@.yields(old(values).source().remaining()) {
                old(throttle)@.advance(old(throttle).source().remaining())
            } else {
                old(throttle)@
            }
            &&& input is Some <==> old(times)@.yields(old(times).source().remaining()) && old(
                values,
            )@.yields(old(values).source().remaining()) && old(throttle)@.yields(
                old(throttle).source().remaining(),
            )
        },
{
    let mut time_window = match times.next() {
        Some(window) => window,
        None => {
            return None;
        },
    };
    let samples = match values.next() {
        Some(window) => window,
        None => {
            return None;
        },
    };
    let mut throttle_window = match throttle.next() {
        Some(window) => window,
        None => {
            return None;
        },
    };
    let time = time_window.swap_remove(0);
    let middle = throttle_window.len() / 2;
    let level = throttle_window.swap_remove(middle);
    Some(ChunkInput { time, samples, throttle: level })
}

} // verus!
