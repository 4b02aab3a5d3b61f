use vstd::prelude::*;
use crate::events::BridgeError;
use crate::events::CommandModel;
use crate::events::OutboundCommand;

verus! {

/// How many commands the bridge may hold before further sends are
/// refused.
pub const BRIDGE_CAPACITY: usize = 100;

/// The command bridge: a bounded, strictly first-in-first-out queue of
/// pending commands from the host application to the event loop.  A send
/// beyond capacity is refused explicitly; no pending command is ever
/// silently dropped.
pub struct CommandBridge {
    queue: Vec<OutboundCommand>,
    closed: bool,
}

impl CommandBridge {
    /// The pending commands, oldest first.
    pub closed spec fn pending(self) -> Seq<CommandModel> {
        self.queue@.map_values(|c: OutboundCommand| c.model())
    }

    /// Whether the receiving end has shut down.
    pub closed spec fn is_closed(self) -> bool {
        self.closed
    }

    /// A bridge never holds more than its capacity.
    pub closed spec fn wf(self) -> bool {
        self.queue@.len() <= BRIDGE_CAPACITY
    }

    /// A fresh, open, empty bridge.
    pub fn new() -> (b: CommandBridge)
        ensures
            b.wf(),
            !b.is_closed(),
            b.pending() == Seq::<CommandModel>::empty(),
    {
        let b = CommandBridge { queue: Vec::new(), closed: false };
        proof {
            assert(b.pending() =~= Seq::<CommandModel>::empty());
        }
        b
    }

    /// How many commands are pending.
    pub fn len(&self) -> (n: usize)
        ensures
            n == self.pending().len(),
    {
        self.queue.len()
    }

    /// Enqueue a command at the back of the queue.  Succeeds exactly when
    /// the bridge is open and below capacity; a full bridge refuses the
    /// send with `Full` and keeps every already-pending command in place.
    pub fn send(&mut self, c: OutboundCommand) -> (r: Result<(), BridgeError>)
        requires
            old(self).wf(),
        ensures
            final(self).wf(),
            final(self).is_closed() == old(self).is_closed(),
            old(self).is_closed() ==> r == Err::<(), BridgeError>(BridgeError::Closed)
                && final(self).pending() == old(self).pending(),
            !old(self).is_closed() && old(self).pending().len() >= BRIDGE_CAPACITY ==> r == Err::<
                (),
                BridgeError,
            >(BridgeError::Full) && final(self).pending() == old(self).pending(),
            !old(self).is_closed() && old(self).pending().len() < BRIDGE_CAPACITY ==> r == Ok::<
                (),
                BridgeError,
            >(()) && final(self).pending() == old(self).pending().push(c.model()),
    {
        if self.closed {
            Err(BridgeError::Closed)
        } else if self.queue.len() >= BRIDGE_CAPACITY {
            Err(BridgeError::Full)
        } else {
            let ghost before = self.queue@;
            self.queue.push(c);
            proof {
                assert(self.pending() =~= before.map_values(|x: OutboundCommand| x.model()).push(
                    c.model(),
                ));
            }
            Ok(())
        }
    }

    /// Dequeue the oldest pending command, if any.
    pub fn recv(&mut self) -> (r: Option<OutboundCommand>)
        requires
            old(self).wf(),
        ensures
            final(self).wf(),
            final(self).is_closed() == old(self).is_closed(),
            old(self).pending().len() == 0 ==> r is None && final(self).pending() == old(
                self,
            ).pending(),
            old(self).pending().len() > 0 ==> r is Some && (r->0).model() == old(self).pending()[0]
                && final(self).pending() == old(self).pending().drop_first(),
    {
        if self.queue.len() == 0 {
            None
        } else {
            let ghost before = self.queue@;
            let c = self.queue.remove(0);
            proof {
                assert(self.pending() =~= before.map_values(
                    |x: OutboundCommand| x.model(),
                ).drop_first());
            }
            Some(c)
        }
    }

    /// Mark the bridge closed.  Later sends are refused with `Closed`;
    /// commands already pending stay receivable.
    pub fn close(&mut self)
        requires
            old(self).wf(),
        ensures
            final(self).wf(),
            final(self).is_closed(),
            final(self).pending() == old(self).pending(),
    {
        self.closed = true;
    }
}

/// Command ordering law: the bridge dispatches commands in the order they
/// were sent.  If, with `p` pending, `c1` is sent and then `c2` (both
/// accepted), then once the `p.len()` commands pending beforehand are
/// drained, the next command received is `c1` and the one after it is
/// `c2`.
pub proof fn lemma_command_ordering(p: Seq<CommandModel>, c1: CommandModel, c2: CommandModel)
    ensures
        p.push(c1).push(c2)[p.len() as int] == c1,
        p.push(c1).push(c2)[p.len() as int + 1] == c2,
        p.push(c1).push(c2).skip(p.len() as int) =~= seq![c1, c2],
{
}

} // verus!
