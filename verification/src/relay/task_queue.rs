//! The queue on which futures wait for a relay task.

use crossbeam_channel::{Receiver, Sender};
use vstd::prelude::*;

use crate::relay::slab::Slab;

verus! {

/// `crossbeam_channel::Sender`: the end of a channel that takes messages.
#[verifier::external_type_specification]
#[verifier::external_body]
#[verifier::reject_recursive_types(T)]
pub struct ExSender<T>(Sender<T>);

/// `crossbeam_channel::Receiver`: the end of a channel that gives them out.
#[verifier::external_type_specification]
#[verifier::external_body]
#[verifier::reject_recursive_types(T)]
pub struct ExReceiver<T>(Receiver<T>);

/// The messages in the channel behind `receiver`, the oldest first.
pub uninterp spec fn in_channel(receiver: Receiver<usize>) -> Seq<usize>;

/// `sender` and `receiver` are the two ends of one channel, and the only ones.
pub uninterp spec fn two_ends(sender: Sender<usize>, receiver: Receiver<usize>) -> bool;

/// Both ends of an unbounded channel.
#[derive(Debug)]
struct TaskChannel {
    sender: Sender<usize>,
    receiver: Receiver<usize>,
}

impl TaskChannel {
    /// The messages in the channel, the oldest first.
    spec fn messages(&self) -> Seq<usize> {
        in_channel(self.receiver)
    }

    /// The ends belong together.
    spec fn wf(&self) -> bool {
        two_ends(self.sender, self.receiver)
    }

    /// `crossbeam_channel::unbounded` makes a channel without messages and hands out its ends.
    #[verifier::external_body]
    fn unbounded() -> (channel: Self)
        ensures
            two_ends(channel.sender, channel.receiver),
            in_channel(channel.receiver) == Seq::<usize>::empty(),
    {
        let (sender, receiver) = crossbeam_channel::unbounded();
        TaskChannel { sender, receiver }
    }

    /// `Sender::send` puts `message` behind the others. It gives the message back only if every
    /// receiver is gone; here one is at hand.
    #[verifier::external_body]
    fn send(&mut self, message: usize) -> (result: Result<(), usize>)
        requires
            two_ends(old(self).sender, old(self).receiver),
        ensures
            two_ends(final(self).sender, final(self).receiver),
            in_channel(final(self).receiver) == in_channel(old(self).receiver).push(message),
            result is Ok,
    {
        match self.sender.send(message) {
            Ok(()) => Ok(()),
            Err(refused) => Err(refused.0),
        }
    }

    /// `Receiver::try_recv` takes the oldest message out of the channel, if there is one.
    #[verifier::external_body]
    fn try_recv(&mut self) -> (message: Option<usize>)
        requires
            two_ends(old(self).sender, old(self).receiver),
        ensures
            two_ends(final(self).sender, final(self).receiver),
            match message {
                Some(oldest) => {
                    &&& in_channel(old(self).receiver).len() > 0
                    &&& oldest == in_channel(old(self).receiver)[0]
                    &&& in_channel(final(self).receiver) == in_channel(
                        old(self).receiver,
                    ).drop_first()
                },
                None => {
                    &&& in_channel(old(self).receiver).len() == 0
                    &&& in_channel(final(self).receiver) == in_channel(old(self).receiver)
                },
            },
    {
        self.receiver.try_recv().ok()
    }
}

/// Futures of type `F` in the order in which they were queued.
///
/// The futures lie in a table; what goes through the channel are their keys.
#[derive(Debug)]
pub struct TaskQueue<F> {
    channel: TaskChannel,
    tasks: Slab<F>,
}

impl<F> View for TaskQueue<F> {
    type V = Seq<F>;

    closed spec fn view(&self) -> Seq<F> {
        self.channel.messages().map_values(|key: usize| self.tasks@[key])
    }
}

impl<F> TaskQueue<F> {
    /// The channel holds the key of every future in the table, once.
    pub closed spec fn wf(&self) -> bool {
        &&& self.channel.wf()
        &&& self.tasks.wf()
        &&& self.channel.messages().no_duplicates()
        &&& forall|i: int|
            0 <= i < self.channel.messages().len() ==> self.tasks@.contains_key(
                #[trigger] self.channel.messages()[i],
            )
        &&& forall|key: usize| #[trigger]
            self.tasks@.contains_key(key) ==> self.channel.messages().contains(key)
    }

    /// A queue without futures.
    pub fn new() -> (queue: Self)
        ensures
            queue.wf(),
            queue@ == Seq::<F>::empty(),
    {
        let queue = TaskQueue { channel: TaskChannel::unbounded(), tasks: Slab::new() };
        assert(queue@ =~= Seq::<F>::empty());
        queue
    }

    /// Puts `task` behind the other futures. Should the channel refuse it, it comes back.
    pub fn push(&mut self, task: F) -> (result: Result<(), F>)
        requires
            old(self).wf(),
        ensures
            final(self).wf(),
            final(self)@ == old(self)@.push(task),
            result is Ok,
    {
        let key: usize = self.tasks.insert(task);
        let ghost before = self.channel.messages();
        match self.channel.send(key) {
            Ok(()) => {
                proof {
                    assert(!before.contains(key));
                    assert(before.push(key)[before.len() as int] == key);
                    assert forall|k: usize| #[trigger] self.tasks@.contains_key(k) implies before.push(
                        key,
                    ).contains(k) by {
                        if k != key {
                            let i = choose|i: int| 0 <= i < before.len() && before[i] == k;
                            assert(before.push(key)[i] == k);
                        }
                    }
                    assert(self@ =~= old(self)@.push(task));
                }
                Ok(())
            },
            Err(_) => Err(self.tasks.remove(key).unwrap()),
        }
    }

    /// Takes the future that waits longest off the queue, if there is one.
    pub fn pop(&mut self) -> (task: Option<F>)
        requires
            old(self).wf(),
        ensures
            final(self).wf(),
            match task {
                Some(oldest) => {
                    &&& old(self)@.len() > 0
                    &&& oldest == old(self)@[0]
                    &&& final(self)@ == old(self)@.drop_first()
                },
                None => old(self)@.len() == 0 && final(self)@ == old(self)@,
            },
    {
        let ghost before = self.channel.messages();
        match self.channel.try_recv() {
            Some(key) => {
                assert(before[0] == key);
                let task = self.tasks.remove(key);
                proof {
                    let after = before.drop_first();
                    assert forall|k: usize| #[trigger] self.tasks@.contains_key(k) implies after.contains(
                        k,
                    ) by {
                        let i = choose|i: int| 0 <= i < before.len() && before[i] == k;
                        assert(after[i - 1] == k);
                    }
                    assert forall|i: int| 0 <= i < after.len() implies self.tasks@.contains_key(
                        #[trigger] after[i],
                    ) by {
                        assert(before[i + 1] == after[i]);
                    }
                    assert(self@ =~= old(self)@.drop_first());
                }
                task
            },
            None => None,
        }
    }

    /// Takes all futures off the queue, the one that waits longest first.
    pub fn drain(&mut self) -> (tasks: Vec<F>)
        requires
            old(self).wf(),
        ensures
            final(self).wf(),
            final(self)@ == Seq::<F>::empty(),
            tasks@ == old(self)@,
    {
        let mut tasks: Vec<F> = Vec::new();
        loop
            invariant
                self.wf(),
                tasks@ + self@ == old(self)@,
            ensures
                self.wf(),
                self@.len() == 0,
                tasks@ + self@ == old(self)@,
            decreases self@.len(),
        {
            let ghost before = (tasks@, self@);
            match self.pop() {
                Some(task) => {
                    tasks.push(task);
                    assert(tasks@ + self@ =~= before.0 + before.1);
                },
                None => {
                    break;
                },
            }
        }
        assert(self@ =~= Seq::<F>::empty());
        assert(tasks@ =~= tasks@ + self@);
        tasks
    }
}

} // verus!
