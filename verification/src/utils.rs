//! The receiving end of a computation that runs elsewhere.
//!
//! Work is handed to another thread together with the sending half of a
//! channel; the types here own the receiving half and are polled without
//! blocking.
use std::sync::mpsc::Receiver;
use std::sync::mpsc::TryRecvError;
use vstd::prelude::*;

verus! {

/// The receiving half of a channel of std. Verus sees nothing inside it.
#[verifier::external_type_specification]
#[verifier::external_body]
#[verifier::reject_recursive_types(T)]
pub struct ExReceiver<T>(Receiver<T>);

/// What one poll of a channel found.
pub enum Polled<T> {
    /// A message was waiting.
    Item(T),
    /// Nothing is waiting, but a sender is still there.
    Empty,
    /// Nothing is waiting and every sender is gone.
    Disconnected,
}

/// `Receiver::try_recv` of std: takes a waiting message without blocking.
/// What it finds depends on the other end of the channel, so nothing is
/// claimed of the result.
#[verifier::external_body]
pub(crate) fn poll<T>(receiver: &Receiver<T>) -> (found: Polled<T>) {
    match receiver.try_recv() {
        Ok(item) => Polled::Item(item),
        Err(TryRecvError::Empty) => Polled::Empty,
        Err(TryRecvError::Disconnected) => Polled::Disconnected,
    }
}

/// The result of a background computation: absent until it has arrived,
/// then the latest value that arrived.
#[verifier::reject_recursive_types(C)]
pub struct BackgroundCompStore<C> {
    data: Option<C>,
    receiver: Receiver<C>,
}

impl<C> BackgroundCompStore<C> {
    /// The value held: `None` while nothing has arrived.
    pub closed spec fn data(&self) -> Option<C> {
        self.data
    }

    /// A store that holds nothing yet and listens on `receiver`.
    pub fn new(receiver: Receiver<C>) -> (store: Self)
        ensures
            store.data() is None,
    {
        Self { data: None, receiver }
    }

    /// Takes in what one poll found: a message replaces the value held,
    /// anything else leaves it.
    pub fn store(&mut self, found: Polled<C>)
        ensures
            final(self).data() == match found {
                Polled::Item(value) => Some(value),
                _ => old(self).data(),
            },
    {
        match found {
            Polled::Item(value) => {
                self.data = Some(value);
            },
            _ => {},
        }
    }

    /// Polls the channel once and gives the value then held. A value that
    /// has arrived is never lost: it stays until a later one replaces it.
    pub fn get(&mut self) -> (held: &Option<C>)
        ensures
            *held == final(self).data(),
            old(self).data() is Some ==> final(self).data() is Some,
    {
        let found = poll(&self.receiver);
        self.store(found);
        &self.data
    }
}

/// The largest number of results that are sent in one message.
pub const RESULT_BATCH_SIZE: usize = 100;

/// Gathers the results of a running computation into batches of a fixed
/// size, so that what is done so far can be sent on before all is done.
pub struct Batcher<T> {
    pending: Vec<T>,
    limit: usize,
}

impl<T> Batcher<T> {
    /// The results gathered and not yet handed out, oldest first.
    pub closed spec fn pending(&self) -> Seq<T> {
        self.pending@
    }

    /// The size of a full batch.
    pub closed spec fn limit(&self) -> usize {
        self.limit
    }

    /// A batch has room for at least one result, and a full one is never
    /// kept back.
    pub open spec fn wf(&self) -> bool {
        self.pending().len() < self.limit()
    }

    /// A gatherer of batches of `limit` results; none for a limit of zero.
    pub fn new(limit: usize) -> (batcher: Option<Self>)
        ensures
            batcher is Some <==> limit > 0,
            batcher matches Some(b) ==> b.wf() && b.limit() == limit && b.pending().len() == 0,
    {
        if limit == 0 {
            None
        } else {
            Some(Self { pending: Vec::new(), limit })
        }
    }

    /// Takes in one more result. The result that fills a batch hands the
    /// batch out, in the order in which its results came.
    pub fn push(&mut self, item: T) -> (full: Option<Vec<T>>)
        requires
            old(self).wf(),
        ensures
            final(self).wf(),
            final(self).limit() == old(self).limit(),
            old(self).pending().len() + 1 == old(self).limit() ==> (full matches Some(batch)
                && batch@ == old(self).pending().push(item) && final(self).pending().len() == 0),
            old(self).pending().len() + 1 < old(self).limit() ==> full is None
                && final(self).pending() == old(self).pending().push(item),
    {
        self.pending.push(item);
        if self.pending.len() == self.limit {
            let mut batch: Vec<T> = Vec::new();
            core::mem::swap(&mut self.pending, &mut batch);
            Some(batch)
        } else {
            None
        }
    }

    /// Ends the gathering and hands out what is left, if anything is.
    pub fn finish(self) -> (rest: Option<Vec<T>>)
        ensures
            rest is Some <==> self.pending().len() > 0,
            rest matches Some(batch) ==> batch@ == self.pending(),
    {
        if self.pending.len() == 0 {
            None
        } else {
            Some(self.pending)
        }
    }
}

/// What a poll means for the one who gathers a stream of batches.
#[derive(Clone, Copy, PartialEq, Eq, Debug, Structural)]
pub enum StreamState {
    /// A batch came: there may be more.
    More,
    /// Nothing is waiting now.
    Idle,
    /// The sender is gone: all has come.
    Finished,
}

/// The results of a running computation, as far as they have arrived.
#[verifier::reject_recursive_types(T)]
pub struct ChunkStream<T> {
    items: Vec<T>,
    receiver: Option<Receiver<Vec<T>>>,
}

impl<T> ChunkStream<T> {
    /// All that has arrived, in the order in which it was sent.
    pub closed spec fn items(&self) -> Seq<T> {
        self.items@
    }

    /// Whether more may still arrive.
    pub closed spec fn open(&self) -> bool {
        self.receiver is Some
    }

    /// A stream that has nothing yet and listens on `receiver`.
    pub fn new(receiver: Receiver<Vec<T>>) -> (stream: Self)
        ensures
            stream.items().len() == 0,
            stream.open(),
    {
        Self { items: Vec::new(), receiver: Some(receiver) }
    }

    /// What has arrived so far.
    pub fn chunks(&self) -> (items: &Vec<T>)
        ensures
            items@ == self.items(),
    {
        &self.items
    }

    /// Whether more may still arrive.
    pub fn is_open(&self) -> (open: bool)
        ensures
            open == self.open(),
    {
        self.receiver.is_some()
    }

    /// Takes in what one poll found: a batch is put behind what is there; a
    /// sender that is gone closes the stream; nothing waiting changes
    /// nothing.
    pub fn take(&mut self, found: Polled<Vec<T>>) -> (state: StreamState)
        ensures
            match found {
                Polled::Item(batch) => {
                    &&& state == StreamState::More
                    &&& final(self).items() == old(self).items() + batch@
                    &&& final(self).open() == old(self).open()
                },
                Polled::Empty => {
                    &&& state == StreamState::Idle
                    &&& final(self).items() == old(self).items()
                    &&& final(self).open() == old(self).open()
                },
                Polled::Disconnected => {
                    &&& state == StreamState::Finished
                    &&& final(self).items() == old(self).items()
                    &&& !final(self).open()
                },
            },
    {
        match found {
            Polled::Item(batch) => {
                let mut batch = batch;
                self.items.append(&mut batch);
                StreamState::More
            },
            Polled::Empty => StreamState::Idle,
            Polled::Disconnected => {
                self.receiver = None;
                StreamState::Finished
            },
        }
    }

    /// Polls until nothing is waiting, the sender is found gone or `budget`
    /// batches have come, and takes in what it finds: see `polled_run`. The
    /// result is whether the sender was found gone, which closes the stream.
    /// With no budget, or on a closed stream, nothing is polled or changed.
    pub fn process_updates(&mut self, budget: usize) -> (ended: bool)
        ensures
            old(self).items().is_prefix_of(final(self).items()),
            ended ==> old(self).open() && !final(self).open(),
            !ended ==> final(self).open() == old(self).open(),
            !old(self).open() ==> final(self).items() == old(self).items(),
            budget == 0 ==> !ended && final(self).items() == old(self).items(),
            old(self).open() ==> exists|founds: Seq<Polled<Vec<T>>>| #[trigger]
                polled_run(founds, budget) && final(self).items() == gathered(
                    old(self).items(),
                    founds,
                ) && ended == ends_stream(founds),
    {
        let mut left = budget;
        let ghost mut founds: Seq<Polled<Vec<T>>> = Seq::empty();
        while left > 0
            invariant
                old(self).items().is_prefix_of(self.items()),
                self.open() == old(self).open(),
                !old(self).open() ==> self.items() == old(self).items(),
                left <= budget,
                founds.len() == budget - left,
                forall|i: int| 0 <= i < founds.len() ==> #[trigger] founds[i] is Item,
                self.items() == gathered(old(self).items(), founds),
            decreases left,
        {
            let found = match &self.receiver {
                Some(receiver) => poll(receiver),
                None => {
                    return false;
                },
            };
            let ghost before = founds;
            proof {
                founds = before.push(found);
                assert(founds.drop_last() =~= before);
            }
            match self.take(found) {
                StreamState::More => {},
                StreamState::Idle => {
                    assert(polled_run(founds, budget));
                    return false;
                },
                StreamState::Finished => {
                    assert(polled_run(founds, budget));
                    return true;
                },
            }
            left -= 1;
        }
        assert(polled_run(founds, budget));
        false
    }
}

/// What a run of polls may have found when at most `budget` batches are
/// taken in one go: batches up to the last poll, and a last poll that is
/// either the batch that spends the budget or the one that found nothing
/// waiting or the sender gone. Without a budget there is no poll.
pub open spec fn polled_run<T>(founds: Seq<Polled<Vec<T>>>, budget: usize) -> bool {
    &&& founds.len() <= budget
    &&& forall|i: int| 0 <= i < founds.len() - 1 ==> #[trigger] founds[i] is Item
    &&& founds.len() < budget ==> founds.len() > 0 && !(founds.last() is Item)
}

/// What is there after a run of polls has been taken in: what was there, and
/// behind it the batches that were found, in the order in which they were
/// found.
pub open spec fn gathered<T>(items: Seq<T>, founds: Seq<Polled<Vec<T>>>) -> Seq<T>
    decreases founds.len(),
{
    if founds.len() == 0 {
        items
    } else {
        match founds.last() {
            Polled::Item(batch) => gathered(items, founds.drop_last()) + batch@,
            _ => gathered(items, founds.drop_last()),
        }
    }
}

/// Whether a run of polls ends a stream: its last poll found the sender
/// gone.
pub open spec fn ends_stream<T>(founds: Seq<Polled<Vec<T>>>) -> bool {
    founds.len() > 0 && founds.last() is Disconnected
}

} // verus!
