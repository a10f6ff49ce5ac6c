//! The channel the engine posts commands on, with the log of what it has
//! handed to `Sender::send`. Only [`CommandChannel::post`] extends the log.
use vstd::prelude::*;
use std::sync::mpsc::Sender;
use crate::engine::Command;

verus! {

/// A sending end of the worker's channel, with the commands handed to it.
pub struct CommandChannel {
    tx: Sender<Command>,
    log: Ghost<Seq<Command>>,
}

impl CommandChannel {
    /// The commands this handle has handed to `Sender::send`, oldest first.
    pub closed spec fn log(&self) -> Seq<Command> {
        self.log@
    }

    /// The `std` sender underneath.
    pub closed spec fn sender(&self) -> Sender<Command> {
        self.tx
    }

    /// A handle on the channel of `tx`, with an empty log.
    pub fn new(tx: Sender<Command>) -> (c: CommandChannel)
        ensures
            c.sender() == tx,
            c.log() == Seq::<Command>::empty(),
    {
        CommandChannel { tx, log: Ghost(Seq::empty()) }
    }

    /// Hands `cmd` to `Sender::send`, ignoring a closed channel. Claims that
    /// `cmd` is appended to the log and the sender stays the same; whether
    /// the worker still listens is not known here, so delivery is not claimed.
    #[verifier::external_body]
    pub(crate) fn post(&mut self, cmd: Command)
        ensures
            final(self).log() == old(self).log().push(cmd),
            final(self).sender() == old(self).sender(),
    {
        let _ = self.tx.send(cmd);
    }

    /// Another handle on the same channel (`Sender::clone`), with an empty
    /// log. Nothing is claimed of the new sender beyond its type.
    #[verifier::external_body]
    pub(crate) fn fresh_clone(&self) -> (c: CommandChannel)
        ensures
            c.log() == Seq::<Command>::empty(),
    {
        CommandChannel { tx: self.tx.clone(), log: Ghost(Seq::empty()) }
    }
}

} // verus!
