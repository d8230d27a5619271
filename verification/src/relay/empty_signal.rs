//! The signal that a scope has run out of futures.

use std::future::Future;
use std::task::{Context, Poll};

use futures::channel::oneshot;
use futures::future::Shared;
use futures::FutureExt;
use vstd::prelude::*;

use crate::task::{task_polled, Progress};

verus! {

/// `futures::channel::oneshot::Sender`: the end of a channel from which its one message is sent.
#[verifier::external_type_specification]
#[verifier::external_body]
#[verifier::reject_recursive_types(T)]
pub struct ExOneshotSender<T>(oneshot::Sender<T>);

/// `futures::channel::oneshot::Receiver`: the end at which the message arrives.
#[verifier::external_type_specification]
#[verifier::external_body]
#[verifier::reject_recursive_types(T)]
pub struct ExOneshotReceiver<T>(oneshot::Receiver<T>);

/// `futures::channel::oneshot::Canceled`: what arrives if the sender is gone without sending.
#[verifier::external_type_specification]
#[verifier::external_body]
pub struct ExCanceled(oneshot::Canceled);

/// `futures::future::Shared`: a future that several tasks can wait for.
#[verifier::external_type_specification]
#[verifier::external_body]
#[verifier::reject_recursive_types(Fut)]
pub struct ExShared<Fut: Future>(Shared<Fut>);

/// `sender` sends to the channel behind `receiver`.
pub uninterp spec fn sends_to(
    sender: oneshot::Sender<()>,
    receiver: Shared<oneshot::Receiver<()>>,
) -> bool;

/// The channel behind `receiver` is one to which its message is sent. That is learned only by
/// sending it; that a channel never gets its message is not claimed of any.
pub uninterp spec fn is_sent(receiver: Shared<oneshot::Receiver<()>>) -> bool;

/// The sender of the channel behind `receiver` is one that goes away without sending. That is
/// learned only when the receiver is told so.
pub uninterp spec fn is_abandoned(receiver: Shared<oneshot::Receiver<()>>) -> bool;

/// `receiver` has already given out what arrived, and cannot be polled any more.
pub uninterp spec fn is_used_up(receiver: Shared<oneshot::Receiver<()>>) -> bool;

/// `receiver` is the only handle on its channel, and the message was sent before it was given out.
pub uninterp spec fn has_arrived(receiver: Shared<oneshot::Receiver<()>>) -> bool;

/// The task that `receiver` has noted when it was polled last, to be woken when something arrives.
pub uninterp spec fn waits_for_task(receiver: Shared<oneshot::Receiver<()>>) -> Option<nat>;

/// `oneshot::channel` makes a channel, `Sender::send` sends the message at once, and
/// `FutureExt::shared` gives the one handle on it.
#[verifier::external_body]
fn sent_channel() -> (receiver: Shared<oneshot::Receiver<()>>)
    ensures
        has_arrived(receiver),
        is_sent(receiver),
        !is_used_up(receiver),
{
    let (sender, receiver) = oneshot::channel();
    sender.send(()).unwrap();
    receiver.shared()
}

/// `Sender::send` sends the message. It fails only if the receiver is gone; here it is at hand.
#[verifier::external_body]
fn send(sender: oneshot::Sender<()>, receiver: &Shared<oneshot::Receiver<()>>) -> (sent: bool)
    requires
        sends_to(sender, *receiver),
    ensures
        sent,
        sent == is_sent(*receiver),
{
    sender.send(()).is_ok()
}

/// `Shared::clone` gives another handle on the same channel, in the same condition. Where there is
/// more than one, a poll may be pending because another handle is just being polled; so it is not
/// for handles that are known to be the only one.
#[verifier::external_body]
fn share(receiver: &Shared<oneshot::Receiver<()>>) -> (twin: Shared<oneshot::Receiver<()>>)
    requires
        !has_arrived(*receiver),
    ensures
        is_sent(twin) == is_sent(*receiver),
        is_abandoned(twin) == is_abandoned(*receiver),
        is_used_up(twin) == is_used_up(*receiver),
{
    receiver.clone()
}

/// `Shared::poll` is ready once the message was sent, or the sender is gone, and says which. When
/// that is, is up to whoever holds the sender, unless the message was there from the beginning. A
/// handle that has to wait has noted the task behind `cx`, in place of one that it had noted
/// before. A handle that was ready is used up by that, and polling it again would panic.
#[verifier::external_body]
fn poll_receiver(receiver: &mut Shared<oneshot::Receiver<()>>, cx: &mut Context<'_>) -> (arrived:
    Progress<Result<(), oneshot::Canceled>>)
    requires
        !is_used_up(*old(receiver)),
    ensures
        is_sent(*final(receiver)) == is_sent(*old(receiver)),
        is_abandoned(*final(receiver)) == is_abandoned(*old(receiver)),
        is_used_up(*final(receiver)) == (arrived is Ready),
        match arrived {
            Progress::Ready(Ok(_)) => is_sent(*old(receiver)),
            Progress::Ready(Err(_)) => is_abandoned(*old(receiver)),
            Progress::Pending => !has_arrived(*old(receiver)) && waits_for_task(*final(receiver))
                == task_polled(*old(cx)),
        },
{
    match receiver.poll_unpin(cx) {
        Poll::Ready(message) => Progress::Ready(message),
        Poll::Pending => Progress::Pending,
    }
}

/// A future that is ready once the scope has run out of futures.
#[derive(Debug)]
pub struct UntilEmpty {
    receiver: Shared<oneshot::Receiver<()>>,
}

impl UntilEmpty {
    /// The signal is given, be it before now or after.
    pub closed spec fn signalled(&self) -> bool {
        is_sent(self.receiver)
    }

    /// The scope goes away without giving the signal, be it before now or after.
    pub closed spec fn abandoned(&self) -> bool {
        is_abandoned(self.receiver)
    }

    /// The signal was given before this future was made, for it alone.
    pub closed spec fn arrived(&self) -> bool {
        has_arrived(self.receiver)
    }

    /// The task that is woken when the signal is given or the scope goes away.
    pub closed spec fn waiting_task(&self) -> Option<nat> {
        waits_for_task(self.receiver)
    }

    /// This future was ready already.
    pub closed spec fn finished(&self) -> bool {
        is_used_up(self.receiver)
    }

    /// A future that is ready at once.
    pub fn ready() -> (until: Self)
        ensures
            until.arrived(),
            until.signalled(),
            !until.finished(),
    {
        UntilEmpty { receiver: sent_channel() }
    }

    /// Whether the signal was given yet, or the scope is gone. If not, the task behind `cx` is
    /// woken when it is. A future that was ready is not to be polled again.
    pub fn poll(&mut self, cx: &mut Context<'_>) -> (progress: Progress<()>)
        requires
            !old(self).finished(),
        ensures
            final(self).signalled() == old(self).signalled(),
            final(self).abandoned() == old(self).abandoned(),
            progress is Ready ==> old(self).signalled() || old(self).abandoned(),
            old(self).arrived() ==> progress is Ready,
            final(self).finished() <==> progress is Ready,
            progress is Pending ==> final(self).waiting_task() == task_polled(*old(cx)),
    {
        Self::answer(poll_receiver(&mut self.receiver, cx))
    }

    /// What to answer to what has arrived: it makes no difference whether the signal was given or
    /// the scope is gone.
    pub fn answer(arrived: Progress<Result<(), oneshot::Canceled>>) -> (progress: Progress<()>)
        ensures
            progress is Ready <==> arrived is Ready,
    {
        match arrived {
            Progress::Ready(_) => Progress::Ready(()),
            Progress::Pending => Progress::Pending,
        }
    }
}

/// The means to give the signal.
#[derive(Debug)]
pub struct EmptySignal {
    sender: oneshot::Sender<()>,
    receiver: Shared<oneshot::Receiver<()>>,
}

impl EmptySignal {
    /// The signal is given, be it before now or after.
    pub closed spec fn signalled(&self) -> bool {
        is_sent(self.receiver)
    }

    /// The signal goes away without being given, be it before now or after.
    pub closed spec fn abandoned(&self) -> bool {
        is_abandoned(self.receiver)
    }

    /// The ends of the channel belong together, and nothing was taken out of it here.
    pub closed spec fn wf(&self) -> bool {
        &&& sends_to(self.sender, self.receiver)
        &&& !is_used_up(self.receiver)
        &&& !has_arrived(self.receiver)
    }

    /// `oneshot::channel` makes a channel and hands out its ends, and `FutureExt::shared` lets
    /// several tasks wait at the one.
    #[verifier::external_body]
    fn channel() -> (signal: Self)
        ensures
            sends_to(signal.sender, signal.receiver),
            !is_used_up(signal.receiver),
            !has_arrived(signal.receiver),
    {
        let (sender, receiver) = oneshot::channel();
        EmptySignal { sender, receiver: receiver.shared() }
    }

    /// A signal for which nobody waits yet.
    pub fn new() -> (signal: Self)
        ensures
            signal.wf(),
    {
        Self::channel()
    }

    /// A future that is ready once the signal was given.
    pub fn wait(&self) -> (until: UntilEmpty)
        requires
            self.wf(),
        ensures
            until.signalled() == self.signalled(),
            until.abandoned() == self.abandoned(),
            !until.finished(),
    {
        UntilEmpty { receiver: share(&self.receiver) }
    }

    /// Gives the signal.
    pub fn give(self) -> (given: bool)
        requires
            self.wf(),
        ensures
            given && self.signalled(),
    {
        let EmptySignal { sender, receiver } = self;
        send(sender, &receiver)
    }
}

} // verus!
