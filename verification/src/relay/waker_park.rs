//! A place where tasks that found nothing to do leave their wakers.
//!
//! A task that wants to park first takes a [`WaitToken`], then looks for work, and parks only if
//! no [`WakerPark::wake`] has happened since the token was taken. A wake-up that falls between
//! looking for work and parking is thereby never lost.

use vstd::prelude::*;

verus! {

/// The number of wake-ups (modulo the size of `usize`) that a park had seen at some moment.
#[derive(Debug)]
pub struct WaitToken(usize);

impl View for WaitToken {
    type V = usize;

    closed spec fn view(&self) -> usize {
        self.0
    }
}

/// What became of an attempt to park.
#[derive(Debug, Clone, Copy, PartialEq, Eq, Structural)]
pub enum WaitResult {
    /// The waker was parked.
    Parked,
    /// A wake-up happened since the token was taken; the waker was not parked.
    TokenMismatch,
}

/// What a [`WakerPark`] holds: the parked wakers in the order in which they came, whether a waker
/// may be parked, and the count of wake-ups.
pub struct ParkState<W> {
    pub parked: Seq<W>,
    pub has_wakers: bool,
    pub token: usize,
}

/// The park that nobody has used yet.
pub open spec fn park_new<W>() -> ParkState<W> {
    ParkState { parked: Seq::empty(), has_wakers: false, token: 0 }
}

/// The park after an attempt to park `waker` under `token`.
pub open spec fn park_wait<W>(park: ParkState<W>, waker: W, token: usize) -> ParkState<W> {
    ParkState {
        parked: if park.token == token {
            park.parked.push(waker)
        } else {
            park.parked
        },
        has_wakers: true,
        token: park.token,
    }
}

/// The park after a wake-up.
pub open spec fn park_wake<W>(park: ParkState<W>) -> ParkState<W> {
    ParkState {
        parked: if park.has_wakers {
            Seq::empty()
        } else {
            park.parked
        },
        has_wakers: false,
        token: park.token.wrapping_add(1),
    }
}

/// The wakers that a wake-up hands out.
pub open spec fn park_woken<W>(park: ParkState<W>) -> Seq<W> {
    if park.has_wakers {
        park.parked
    } else {
        Seq::empty()
    }
}

/// Wakers are parked only while the flag that announces them is up.
pub open spec fn park_announced<W>(park: ParkState<W>) -> bool {
    park.parked.len() > 0 ==> park.has_wakers
}

/// Wakers of type `W` that wait for the next wake-up.
#[derive(Debug)]
pub struct WakerPark<W> {
    inner: Vec<W>,
    has_wakers: bool,
    token: usize,
}

impl<W> View for WakerPark<W> {
    type V = ParkState<W>;

    closed spec fn view(&self) -> ParkState<W> {
        ParkState { parked: self.inner@, has_wakers: self.has_wakers, token: self.token }
    }
}

impl<W> WakerPark<W> {
    /// A park without wakers that has seen no wake-up.
    pub fn new() -> (park: Self)
        ensures
            park@ == park_new::<W>(),
            park_announced(park@),
    {
        WakerPark { inner: Vec::new(), has_wakers: false, token: 0 }
    }

    /// The token to park with, as long as no wake-up happens from now on.
    pub fn token(&self) -> (token: WaitToken)
        ensures
            token@ == self@.token,
    {
        WaitToken(self.token)
    }

    /// Parks `waker` until the next wake-up, unless one has happened since `token` was taken.
    pub fn wait(&mut self, waker: W, token: WaitToken) -> (result: WaitResult)
        ensures
            final(self)@ == park_wait(old(self)@, waker, token@),
            park_announced(final(self)@),
            result == (if old(self)@.token == token@ {
                WaitResult::Parked
            } else {
                WaitResult::TokenMismatch
            }),
    {
        self.has_wakers = true;
        if self.token != token.0 {
            return WaitResult::TokenMismatch;
        }
        self.inner.push(waker);
        WaitResult::Parked
    }

    /// Counts a wake-up and, where wakers are announced, hands out the parked ones, in the order in
    /// which they came, for the caller to wake.
    pub fn wake(&mut self) -> (woken: Vec<W>)
        ensures
            final(self)@ == park_wake(old(self)@),
            park_announced(old(self)@) ==> park_announced(final(self)@),
            woken@ == park_woken(old(self)@),
    {
        let mut woken: Vec<W> = Vec::new();
        self.token = self.token.wrapping_add(1);
        if self.has_wakers {
            std::mem::swap(&mut self.inner, &mut woken);
            self.has_wakers = false;
        }
        woken
    }
}

/// What may happen to a park.
pub enum ParkOp<W> {
    /// An attempt to park `waker` under `token`.
    Wait { waker: W, token: usize },
    /// A wake-up.
    Wake,
}

/// The park after `op`.
pub open spec fn park_step<W>(park: ParkState<W>, op: ParkOp<W>) -> ParkState<W> {
    match op {
        ParkOp::Wait { waker, token } => park_wait(park, waker, token),
        ParkOp::Wake => park_wake(park),
    }
}

/// The park after all of `ops`, one after the other.
pub open spec fn park_run<W>(park: ParkState<W>, ops: Seq<ParkOp<W>>) -> ParkState<W>
    decreases ops.len(),
{
    if ops.len() == 0 {
        park
    } else {
        park_step(park_run(park, ops.drop_last()), ops.last())
    }
}

/// How many of `ops` are wake-ups.
pub open spec fn park_wakes<W>(ops: Seq<ParkOp<W>>) -> nat
    decreases ops.len(),
{
    if ops.len() == 0 {
        0
    } else {
        park_wakes(ops.drop_last()) + (if ops.last() is Wake {
            1nat
        } else {
            0
        })
    }
}

/// The token goes up with every wake-up, and starts over after the greatest one.
proof fn lemma_token_counts<W>(park: ParkState<W>, ops: Seq<ParkOp<W>>)
    requires
        park_wakes(ops) <= usize::MAX,
    ensures
        park_run(park, ops).token == park.token + park_wakes(ops) || park_run(park, ops).token
            == park.token + park_wakes(ops) - (usize::MAX + 1),
    decreases ops.len(),
{
    if ops.len() > 0 {
        lemma_token_counts(park, ops.drop_last());
    }
}

/// Whatever else happened to the park: with a token that was taken before `ops`, a waker is parked
/// after them exactly if there was no wake-up among them. The count of wake-ups starts over at
/// some point, so there must not have been that many.
pub proof fn law_no_wake_up_is_missed<W>(park: ParkState<W>, ops: Seq<ParkOp<W>>, waker: W)
    requires
        park_wakes(ops) <= usize::MAX,
    ensures
        park_wakes(ops) == 0 ==> park_wait(park_run(park, ops), waker, park.token).parked
            == park_run(park, ops).parked.push(waker),
        park_wakes(ops) > 0 ==> park_wait(park_run(park, ops), waker, park.token).parked
            == park_run(park, ops).parked,
{
    lemma_token_counts(park, ops);
}

/// A parked waker stays parked, whatever else happens, until the next wake-up hands it out.
pub proof fn law_parked_until_woken<W>(park: ParkState<W>, ops: Seq<ParkOp<W>>, waker: W)
    requires
        park_announced(park),
        park.parked.contains(waker),
        park_wakes(ops) == 0,
    ensures
        park_announced(park_run(park, ops)),
        park_run(park, ops).parked.contains(waker),
        park_woken(park_run(park, ops)).contains(waker),
    decreases ops.len(),
{
    if ops.len() > 0 {
        let last = park_run(park, ops.drop_last());
        law_parked_until_woken(park, ops.drop_last(), waker);
        if let ParkOp::Wait { waker: newcomer, .. } = ops.last() {
            let i = choose|i: int| 0 <= i < last.parked.len() && last.parked[i] == waker;
            assert(last.parked.push(newcomer)[i] == waker);
        }
    }
}

} // verus!
