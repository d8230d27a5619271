//! The pad on which spawners leave futures until the scope takes them in.

use std::collections::VecDeque;

use futures::task::SpawnError;
use vstd::prelude::*;

verus! {

/// What an open pad holds: the futures in the order in which they were spawned, and the waker of
/// the task that polls the scope, if that task wants to hear of the next spawn.
#[verifier::ext_equal]
pub struct PadState<F, W> {
    pub futures: Seq<F>,
    pub waker: Option<W>,
}

/// The pad on which nothing was left yet.
pub open spec fn pad_new<F, W>() -> PadState<F, W> {
    PadState { futures: Seq::empty(), waker: None }
}

/// The pad after `future` was left on it.
pub open spec fn pad_push<F, W>(pad: PadState<F, W>, future: F) -> PadState<F, W> {
    PadState { futures: pad.futures.push(future), waker: None }
}

/// What `future` does to the pad of a scope, or to the lack of one: a closed scope stays closed.
pub open spec fn incoming_spawn<F, W>(
    incoming: Option<PadState<F, W>>,
    future: F,
) -> Option<PadState<F, W>> {
    match incoming {
        Some(pad) => Some(pad_push(pad, future)),
        None => None,
    }
}

/// The pad of a scope, or the lack of one, after the scope has taken everything in.
pub open spec fn incoming_drained<F, W>(incoming: Option<PadState<F, W>>) -> Option<
    PadState<F, W>,
> {
    match incoming {
        Some(_) => Some(pad_new()),
        None => None,
    }
}

/// The futures that wait on the pad of a scope: none where there is no pad.
pub open spec fn incoming_futures<F, W>(incoming: Option<PadState<F, W>>) -> Seq<F> {
    match incoming {
        Some(pad) => pad.futures,
        None => Seq::empty(),
    }
}

/// The pad of a scope, or the lack of one, after `waker` asked to hear of the next spawn.
pub open spec fn incoming_registered<F, W>(
    incoming: Option<PadState<F, W>>,
    waker: W,
) -> Option<PadState<F, W>> {
    match incoming {
        Some(pad) => Some(PadState { futures: pad.futures, waker: Some(waker) }),
        None => None,
    }
}

/// A pad for futures of type `F`, with room for one waker of type `W`.
#[derive(Debug)]
pub struct IncomingPad<F, W> {
    futures: VecDeque<F>,
    waker: Option<W>,
}

impl<F, W> View for IncomingPad<F, W> {
    type V = PadState<F, W>;

    closed spec fn view(&self) -> PadState<F, W> {
        PadState { futures: self.futures@, waker: self.waker }
    }
}

impl<F, W> IncomingPad<F, W> {
    /// An empty pad.
    pub fn new() -> (pad: Self)
        ensures
            pad@ == pad_new::<F, W>(),
    {
        IncomingPad { futures: VecDeque::new(), waker: None }
    }

    /// Leaves `future` on the pad and hands out the waker, if there is one, for the caller to
    /// wake.
    pub fn push(&mut self, future: F) -> (woken: Option<W>)
        ensures
            final(self)@ == pad_push(old(self)@, future),
            woken == old(self)@.waker,
    {
        self.futures.push_back(future);
        self.waker.take()
    }

    /// Takes all futures off the pad, in the order in which they were left there, and forgets the
    /// waker.
    pub fn drain(&mut self) -> (futures: VecDeque<F>)
        ensures
            final(self)@ == pad_new::<F, W>(),
            futures@ == old(self)@.futures,
    {
        self.waker = None;
        let mut futures: VecDeque<F> = VecDeque::new();
        futures.append(&mut self.futures);
        assert(futures@ =~= old(self)@.futures);
        futures
    }
}

/// The pad of a scope as its spawners see it: there for as long as the scope accepts futures.
#[derive(Debug)]
pub struct Incoming<F, W> {
    pad: Option<IncomingPad<F, W>>,
}

impl<F, W> View for Incoming<F, W> {
    type V = Option<PadState<F, W>>;

    closed spec fn view(&self) -> Option<PadState<F, W>> {
        match self.pad {
            Some(pad) => Some(pad@),
            None => None,
        }
    }
}

impl<F, W> Incoming<F, W> {
    /// An empty pad that accepts futures.
    pub fn open() -> (incoming: Self)
        ensures
            incoming@ == Some(pad_new::<F, W>()),
    {
        Incoming { pad: Some(IncomingPad::new()) }
    }

    /// No pad: every future is refused.
    pub fn closed() -> (incoming: Self)
        ensures
            incoming@ is None,
    {
        Incoming { pad: None }
    }

    /// The given pad, which accepts futures.
    pub fn over(pad: IncomingPad<F, W>) -> (incoming: Self)
        ensures
            incoming@ == Some(pad@),
    {
        Incoming { pad: Some(pad) }
    }

    /// The pad, if there is one.
    pub fn into_pad(self) -> (pad: Option<IncomingPad<F, W>>)
        ensures
            match pad {
                Some(pad) => self@ == Some(pad@),
                None => self@ is None,
            },
    {
        self.pad
    }

    /// Leaves `future` on the pad. `Ok` holds the waker that the caller is to wake, if there is
    /// one; without a pad the future is dropped and the shutdown error comes back.
    pub fn spawn(&mut self, future: F) -> (result: Result<Option<W>, SpawnError>)
        ensures
            final(self)@ == incoming_spawn(old(self)@, future),
            match old(self)@ {
                Some(pad) => result matches Ok(woken) && woken == pad.waker,
                None => result is Err,
            },
    {
        match self.pad.take() {
            Some(mut pad) => {
                let woken = pad.push(future);
                self.pad = Some(pad);
                Ok(woken)
            },
            None => Err(SpawnError::shutdown()),
        }
    }

    /// Whether a spawn would be accepted: the shutdown error if there is no pad.
    pub fn status(&self) -> (result: Result<(), SpawnError>)
        ensures
            result is Ok <==> self@ is Some,
    {
        match &self.pad {
            Some(_) => Ok(()),
            None => Err(SpawnError::shutdown()),
        }
    }

    /// Takes all futures off the pad, in the order in which they were spawned, and forgets the
    /// waker.
    pub fn drain(&mut self) -> (futures: VecDeque<F>)
        ensures
            final(self)@ == incoming_drained(old(self)@),
            futures@ == incoming_futures(old(self)@),
    {
        match self.pad.take() {
            Some(mut pad) => {
                let futures = pad.drain();
                self.pad = Some(pad);
                futures
            },
            None => VecDeque::new(),
        }
    }

    /// Asks to have `waker` handed out by the next spawn, in place of an earlier waker. Without a
    /// pad there will be no spawn, and the waker is dropped.
    pub fn register(&mut self, waker: W)
        ensures
            final(self)@ == incoming_registered(old(self)@, waker),
    {
        match self.pad.take() {
            Some(mut pad) => {
                pad.waker = Some(waker);
                self.pad = Some(pad);
            },
            None => {},
        }
    }

    /// Takes the pad away, with the futures that were left on it.
    pub fn close(&mut self)
        ensures
            final(self)@ is None,
    {
        self.pad = None;
    }
}

} // verus!
