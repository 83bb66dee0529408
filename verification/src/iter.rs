//! Overlapping fixed-size windows over any iterator.
//!
//! A sampler buffers `window_size` items of its source and hands out a copy
//! of the buffer; every later window drops the oldest `step_size` items and
//! appends the next `step_size` items of the source. Nothing ragged is ever
//! handed out: a source that ends in the middle of a window or of a step ends
//! the sampler.
use std::collections::VecDeque;
use vstd::prelude::*;
use vstd::std_specs::iter::IteratorSpec;

verus! {

/// The last `width` items of `held` followed by `fresh`.
pub open spec fn slide<T>(held: Seq<T>, fresh: Seq<T>, width: nat) -> Seq<T> {
    (held + fresh).skip((held + fresh).len() - width)
}

/// What a sampler is, as a mathematical value: the items it holds and the two
/// sizes it was made with. How it moves is told by `advance`, as a function
/// of the items that its source has yet to give.
pub struct WindowState<T> {
    /// The buffered items, oldest first.
    pub held: Seq<T>,
    /// Whether a first window has been handed out.
    pub filled: bool,
    pub window_size: nat,
    pub step_size: nat,
}

impl<T> WindowState<T> {
    /// The state of a sampler that has not been asked for a window yet.
    pub open spec fn fresh(window_size: nat, step_size: nat) -> Self {
        WindowState { held: Seq::empty(), filled: false, window_size, step_size }
    }

    /// Never more than one window is held, and exactly one once the first
    /// window has been handed out.
    pub open spec fn wf(self) -> bool {
        &&& self.held.len() <= self.window_size
        &&& self.filled ==> self.held.len() == self.window_size
    }

    /// How many items the next window takes from the source.
    pub open spec fn demand(self) -> nat {
        if self.filled {
            self.step_size
        } else {
            (self.window_size - self.held.len()) as nat
        }
    }

    /// Whether a source with `rest` still to give is enough for one more
    /// window.
    pub open spec fn yields(self, rest: Seq<T>) -> bool {
        self.demand() <= rest.len()
    }

    /// The state after one request, for a source with `rest` still to give.
    /// Where the source is too short, a sampler that has handed out a window
    /// keeps it and drops the partial step; one that is still filling keeps
    /// what it got.
    pub open spec fn advance(self, rest: Seq<T>) -> Self {
        if self.yields(rest) {
            WindowState {
                held: slide(self.held, rest.take(self.demand() as int), self.window_size),
                filled: true,
                ..self
            }
        } else if self.filled {
            self
        } else {
            WindowState { held: self.held + rest, ..self }
        }
    }

    /// What the source has still to give after that request.
    pub open spec fn rest_after(self, rest: Seq<T>) -> Seq<T> {
        if self.yields(rest) {
            rest.skip(self.demand() as int)
        } else {
            Seq::empty()
        }
    }

    /// The state after `n` requests, with what the source has then still to
    /// give.
    pub open spec fn after(self, rest: Seq<T>, n: nat) -> (Self, Seq<T>)
        decreases n,
    {
        if n == 0 {
            (self, rest)
        } else {
            let (state, left) = self.after(rest, (n - 1) as nat);
            (state.advance(left), state.rest_after(left))
        }
    }
}

/// The window with index `k` of `source`: `window_size` items, the first of
/// them at `k * step_size`.
pub open spec fn window_at<T>(source: Seq<T>, window_size: nat, step_size: nat, k: nat) -> Seq<T> {
    source.subrange(k * step_size as int, k * step_size as int + window_size)
}

/// How many windows a source of `len` items gives, for a step that is not
/// zero.
pub open spec fn window_count(len: nat, window_size: nat, step_size: nat) -> nat {
    if len < window_size {
        0
    } else {
        ((len - window_size) / step_size as int + 1) as nat
    }
}

/// The first window is the source itself where the source is exactly one
/// window long.
pub proof fn law_first_window_is_source<T>(source: Seq<T>, step_size: nat)
    ensures
        WindowState::<T>::fresh(source.len(), step_size).yields(source),
        WindowState::<T>::fresh(source.len(), step_size).advance(source).held == source,
{
    let state = WindowState::<T>::fresh(source.len(), step_size);
    assert(source.take(source.len() as int) =~= source);
    assert(state.advance(source).held =~= source);
}

/// Sliding a full window over fewer fresh items than it holds keeps its
/// newest items in front, in their order, and puts the fresh ones behind
/// them: whatever the fresh items are.
pub proof fn law_slide_keeps_the_newest<T>(held: Seq<T>, fresh: Seq<T>)
    requires
        fresh.len() <= held.len(),
    ensures
        slide(held, fresh, held.len()).len() == held.len(),
        slide(held, fresh, held.len()).take(held.len() - fresh.len()) == held.skip(
            fresh.len() as int,
        ),
        slide(held, fresh, held.len()).skip(held.len() - fresh.len()) == fresh,
{
    let moved = slide(held, fresh, held.len());
    assert(moved.take(held.len() - fresh.len()) =~= held.skip(fresh.len() as int));
    assert(moved.skip(held.len() - fresh.len()) =~= fresh);
}

/// With a step of at most one window, a window starts with the last
/// `window_size - step_size` items of the one before it, in their order, and
/// ends with the `step_size` items that the source gave next.
pub proof fn law_consecutive_windows_overlap<T>(state: WindowState<T>, rest: Seq<T>)
    requires
        state.wf(),
        state.filled,
        state.step_size <= state.window_size,
        state.yields(rest),
    ensures
        state.advance(rest).held.len() == state.window_size,
        state.advance(rest).held.take(state.window_size - state.step_size) == state.held.skip(
            state.step_size as int,
        ),
        state.advance(rest).held.skip(state.window_size - state.step_size) == rest.take(
            state.step_size as int,
        ),
{
    let next = state.advance(rest).held;
    assert(next.take(state.window_size - state.step_size) =~= state.held.skip(
        state.step_size as int,
    ));
    assert(next.skip(state.window_size - state.step_size) =~= rest.take(state.step_size as int));
}

/// A source that is long enough for the window with index `k` gives it at
/// request `k + 1`, and has then given `k * step_size + window_size` items.
pub proof fn law_windows_of_source<T>(source: Seq<T>, window_size: nat, step_size: nat, k: nat)
    requires
        k * step_size + window_size <= source.len(),
    ensures
        ({
            let (before, rest) = WindowState::<T>::fresh(window_size, step_size).after(source, k);
            let (state, left) = WindowState::<T>::fresh(window_size, step_size).after(
                source,
                k + 1,
            );
            &&& before.wf()
            &&& before.yields(rest)
            &&& state.wf()
            &&& state.filled
            &&& state.window_size == window_size
            &&& state.step_size == step_size
            &&& state.held == window_at(source, window_size, step_size, k)
            &&& left == source.skip(k * step_size as int + window_size)
        }),
    decreases k,
{
    let fresh = WindowState::<T>::fresh(window_size, step_size);
    if k == 0 {
        assert(k * step_size as int == 0) by (nonlinear_arith)
            requires
                k == 0,
        ;
        assert(fresh.after(source, 0) == (fresh, source));
        assert(fresh.after(source, 1) == (fresh.advance(source), fresh.rest_after(source))) by {
            reveal_with_fuel(WindowState::after, 2);
        }
        assert(fresh.demand() == window_size);
        assert(fresh.held + source.take(window_size as int) =~= source.take(window_size as int));
        assert(fresh.advance(source).held =~= source.subrange(0, window_size as int));
    } else {
        let j = (k - 1) as nat;
        let start = j * step_size as int;
        assert(start + step_size == k * step_size as int && start >= 0) by (nonlinear_arith)
            requires
                j + 1 == k,
                start == j * step_size as int,
        ;
        law_windows_of_source(source, window_size, step_size, j);
        let (before, rest) = fresh.after(source, k);
        assert(fresh.after(source, k + 1) == (before.advance(rest), before.rest_after(rest)));
        assert(before.held == source.subrange(start, start + window_size));
        assert(rest == source.skip(start + window_size));
        assert(before.demand() == step_size);
        let fed = rest.take(step_size as int);
        assert(before.advance(rest).held == (before.held + fed).skip(step_size as int));
        assert((before.held + fed).skip(step_size as int) =~= source.subrange(
            start + step_size,
            start + step_size + window_size,
        ));
        assert(before.rest_after(rest) =~= source.skip(start + step_size + window_size));
    }
}

/// With a step that is not zero, a source gives `window_count` windows and
/// no more: every request after them ends with nothing.
pub proof fn law_windows_end<T>(source: Seq<T>, window_size: nat, step_size: nat, k: nat)
    requires
        step_size > 0,
        k >= window_count(source.len(), window_size, step_size),
    ensures
        ({
            let (state, rest) = WindowState::<T>::fresh(window_size, step_size).after(source, k);
            &&& state.wf()
            &&& state.window_size == window_size
            &&& state.step_size == step_size
            &&& !state.yields(rest)
            &&& k > window_count(source.len(), window_size, step_size) ==> rest.len() == 0
        }),
    decreases k,
{
    let fresh = WindowState::<T>::fresh(window_size, step_size);
    let count = window_count(source.len(), window_size, step_size);
    if k == count {
        if count == 0 {
            assert(fresh.after(source, 0) == (fresh, source));
        } else {
            let last = (count - 1) as nat;
            let span = (source.len() - window_size) as int;
            assert(last * step_size <= span && span < last * step_size + step_size) by (nonlinear_arith)
                requires
                    last == span / step_size as int,
                    step_size > 0,
                    span >= 0,
            ;
            law_windows_of_source(source, window_size, step_size, last);
        }
    } else {
        let j = (k - 1) as nat;
        law_windows_end(source, window_size, step_size, j);
        let (before, rest) = fresh.after(source, j);
        assert(fresh.after(source, k) == (before.advance(rest), before.rest_after(rest)));
    }
}

/// A sampler of overlapping windows over the iterator `I`.
pub struct OverlappingWindowIter<I: Iterator> {
    iterator: I,
    buffer: VecDeque<I::Item>,
    window_size: usize,
    step_size: usize,
    filled: bool,
}

impl<I: Iterator> View for OverlappingWindowIter<I> {
    type V = WindowState<I::Item>;

    closed spec fn view(&self) -> WindowState<I::Item> {
        WindowState {
            held: self.buffer@,
            filled: self.filled,
            window_size: self.window_size as nat,
            step_size: self.step_size as nat,
        }
    }
}

/// Moves `fresh` to the back of `buffer` and drops from the front until
/// `width` items are left.
fn shift_in<T>(buffer: &mut VecDeque<T>, fresh: &mut VecDeque<T>, width: usize)
    requires
        old(buffer)@.len() == width,
    ensures
        final(buffer)@ == slide(old(buffer)@, old(fresh)@, width as nat),
        final(fresh)@.len() == 0,
{
    let ghost all = old(buffer)@ + old(fresh)@;
    let ghost count = old(fresh)@.len();
    while fresh.len() > 0
        invariant
            all == old(buffer)@ + old(fresh)@,
            old(buffer)@.len() == width,
            count == old(fresh)@.len(),
            fresh@.len() <= count,
            buffer@.len() == width,
            fresh@ == old(fresh)@.skip(count - fresh@.len()),
            buffer@ == all.subrange(count - fresh@.len(), count - fresh@.len() + width),
        decreases fresh@.len(),
    {
        let ghost done = count - fresh@.len();
        let item = fresh.pop_front();
        match item {
            Some(x) => {
                buffer.push_back(x);
                let _ = buffer.pop_front();
                assert(x == all[done + width]);
                assert(buffer@ =~= all.subrange(done + 1, done + 1 + width));
                assert(fresh@ =~= old(fresh)@.skip(done + 1));
            },
            None => {},
        }
    }
    assert(buffer@ =~= slide(old(buffer)@, old(fresh)@, width as nat));
}

impl<I: Iterator> OverlappingWindowIter<I> {
    /// The source, as it stands: what it has yet to give is
    /// `self.source().remaining()`.
    pub closed spec fn source(&self) -> I {
        self.iterator
    }

    /// A sampler over `iterator` that has pulled nothing yet.
    pub fn new(iterator: I, window_size: usize, step_size: usize) -> (sampler: Self)
        ensures
            sampler@ == WindowState::<I::Item>::fresh(window_size as nat, step_size as nat),
            sampler.source() == iterator,
    {
        Self { iterator, buffer: VecDeque::new(), window_size, step_size, filled: false }
    }

    /// A copy of the buffered items, oldest first.
    fn window(&self) -> (copy: Vec<I::Item>) where I::Item: Clone
        ensures
            copy@.len() == self@.held.len(),
            forall|i: int| 0 <= i < copy@.len() ==> cloned(self@.held[i], #[trigger] copy@[i]),
    {
        let mut copy: Vec<I::Item> = Vec::new();
        let mut i: usize = 0;
        while i < self.buffer.len()
            invariant
                i <= self.buffer@.len(),
                copy@.len() == i,
                forall|j: int| 0 <= j < i ==> cloned(self.buffer@[j], #[trigger] copy@[j]),
            decreases self.buffer@.len() - i,
        {
            copy.push(self.buffer[i].clone());
            i += 1;
        }
        copy
    }

    /// The next window, or `None` once the source cannot complete one.
    ///
    /// The first request buffers `window_size` items; each later one takes
    /// `step_size` items more and keeps the newest `window_size` of what it
    /// then has. The result is an item-by-item clone of the buffer. How the
    /// buffer moves is said of every source; which items the source gives,
    /// and whether it gives enough, is said of a source that keeps the laws
    /// of `IteratorSpec`.
    pub fn next(&mut self) -> (window: Option<Vec<I::Item>>) where I::Item: Clone
        requires
            old(self)@.wf(),
        ensures
            final(self)@.wf(),
            final(self)@.window_size == old(self)@.window_size,
            final(self)@.step_size == old(self)@.step_size,
            final(self).source().obeys_prophetic_iter_laws() == old(
                self,
            ).source().obeys_prophetic_iter_laws(),
            window matches Some(w) ==> {
                &&& final(self)@.filled
                &&& w@.len() == final(self)@.window_size
                &&& forall|i: int|
                    0 <= i < w@.len() ==> cloned(final(self)@.held[i], #[trigger] w@[i])
            },
            window is None ==> final(self)@.filled == old(self)@.filled,
            old(self)@.demand() == 0 ==> window is Some,
            !old(self)@.filled ==> old(self)@.held.is_prefix_of(final(self)@.held),
            old(self)@.filled ==> (if window is Some {
                exists|fresh: Seq<I::Item>|
                    fresh.len() == old(self)@.step_size && #[trigger] slide(
                        old(self)@.held,
                        fresh,
                        old(self)@.window_size,
                    ) == final(self)@.held
            } else {
                final(self)@.held == old(self)@.held
            }),
            old(self).source().obeys_prophetic_iter_laws() ==> {
                &&& window is Some <==> old(self)@.yields(old(self).source().remaining())
                &&& final(self)@ == old(self)@.advance(old(self).source().remaining())
                &&& final(self).source().remaining() == old(self)@.rest_after(
                    old(self).source().remaining(),
                )
            },
    {
        if !self.filled {
            while self.buffer.len() < self.window_size
                invariant
                    self.window_size == old(self).window_size,
                    self.step_size == old(self).step_size,
                    !self.filled,
                    !old(self).filled,
                    old(self).buffer@.len() <= self.buffer@.len() <= self.window_size,
                    old(self).buffer@.is_prefix_of(self.buffer@),
                    self.iterator.obeys_prophetic_iter_laws() == old(
                        self,
                    ).iterator.obeys_prophetic_iter_laws(),
                    self.iterator.obeys_prophetic_iter_laws() ==> {
                        let taken = self.buffer@.len() - old(self).buffer@.len();
                        &&& taken <= old(self).iterator.remaining().len()
                        &&& self.buffer@ == old(self).buffer@ + old(self).iterator.remaining().take(
                            taken,
                        )
                        &&& self.iterator.remaining() == old(self).iterator.remaining().skip(taken)
                    },
                decreases self.window_size - self.buffer@.len(),
            {
                let ghost taken = self.buffer@.len() - old(self).buffer@.len();
                match self.iterator.next() {
                    Some(item) => {
                        self.buffer.push_back(item);
                        proof {
                            if self.iterator.obeys_prophetic_iter_laws() {
                                let rest = old(self).iterator.remaining();
                                assert(self.buffer@ =~= old(self).buffer@ + rest.take(taken + 1));
                                assert(self.iterator.remaining() =~= rest.skip(taken + 1));
                            }
                        }
                    },
                    None => {
                        proof {
                            if self.iterator.obeys_prophetic_iter_laws() {
                                let rest = old(self).iterator.remaining();
                                assert(rest.take(taken) =~= rest);
                                assert(self.iterator.remaining() =~= Seq::<I::Item>::empty());
                            }
                        }
                        return None;
                    },
                }
            }
            self.filled = true;
            proof {
                if self.iterator.obeys_prophetic_iter_laws() {
                    let rest = old(self).iterator.remaining();
                    let need = old(self)@.demand();
                    assert(self.buffer@ =~= slide(
                        old(self).buffer@,
                        rest.take(need as int),
                        self.window_size as nat,
                    ));
                }
            }
            return Some(self.window());
        }
        let mut step: VecDeque<I::Item> = VecDeque::new();
        while step.len() < self.step_size
            invariant
                self.window_size == old(self).window_size,
                self.step_size == old(self).step_size,
                self.filled,
                old(self).filled,
                self.buffer@ == old(self).buffer@,
                self.buffer@.len() == self.window_size,
                step@.len() <= self.step_size,
                self.iterator.obeys_prophetic_iter_laws() == old(
                    self,
                ).iterator.obeys_prophetic_iter_laws(),
                self.iterator.obeys_prophetic_iter_laws() ==> {
                    &&& step@.len() <= old(self).iterator.remaining().len()
                    &&& step@ == old(self).iterator.remaining().take(step@.len() as int)
                    &&& self.iterator.remaining() == old(self).iterator.remaining().skip(
                        step@.len() as int,
                    )
                },
            decreases self.step_size - step@.len(),
        {
            let ghost taken = step@.len() as int;
            match self.iterator.next() {
                Some(item) => {
                    step.push_back(item);
                    proof {
                        if self.iterator.obeys_prophetic_iter_laws() {
                            let rest = old(self).iterator.remaining();
                            assert(step@ =~= rest.take(taken + 1));
                            assert(self.iterator.remaining() =~= rest.skip(taken + 1));
                        }
                    }
                },
                None => {
                    proof {
                        if self.iterator.obeys_prophetic_iter_laws() {
                            assert(self.iterator.remaining() =~= Seq::<I::Item>::empty());
                        }
                    }
                    return None;
                },
            }
        }
        shift_in(&mut self.buffer, &mut step, self.window_size);
        Some(self.window())
    }

    /// How many windows a sampler that has pulled nothing yet will hand out
    /// when its source has `available` items to give: the first and those
    /// that follow it. `None` where that cannot be told: the source is
    /// shorter than one window, the step is zero, or the number is beyond
    /// `usize`. The caller knows its source and counts the items.
    pub fn len(&self, available: usize) -> (count: Option<usize>)
        ensures
            count == counted_windows(available as nat, self@.window_size, self@.step_size),
    {
        if self.step_size == 0 || available < self.window_size {
            None
        } else {
            ((available - self.window_size) / self.step_size).checked_add(1)
        }
    }
}

/// The number of windows that a source of `len` items gives, where it can be
/// told: `window_count`, for a step that is not zero and a source of at
/// least one window.
pub open spec fn counted_windows(len: nat, window_size: nat, step_size: nat) -> Option<usize> {
    if step_size == 0 || len < window_size || window_count(len, window_size, step_size)
        > usize::MAX {
        None
    } else {
        Some(window_count(len, window_size, step_size) as usize)
    }
}

/// Makes a sampler of any iterator.
pub trait IterExt<I: Iterator> {
    /// The iterator that the sampler will pull from.
    spec fn as_source(self) -> I;

    /// A sampler over `self`; `overlap` is the number of items by which each
    /// window is moved on from the one before.
    fn overlapping_windows(self, window_size: usize, overlap: usize) -> (sampler:
        OverlappingWindowIter<I>)
        ensures
            sampler@ == WindowState::<I::Item>::fresh(window_size as nat, overlap as nat),
            sampler.source() == self.as_source(),
    ;
}

impl<I: Iterator + Sized> IterExt<I> for I {
    open spec fn as_source(self) -> I {
        self
    }

    fn overlapping_windows(self, window_size: usize, overlap: usize) -> (sampler:
        OverlappingWindowIter<I>) {
        OverlappingWindowIter::new(self, window_size, overlap)
    }
}

} // verus!
