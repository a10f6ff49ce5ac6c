//! The engine's command handle: typed methods that post [`Command`]s to the
//! rendering worker over a channel.
use vstd::prelude::*;
use std::path::PathBuf;
use std::sync::mpsc::Sender;
use crate::channel::CommandChannel;

verus! {

// `std` types, declared to Verus as opaque.
#[verifier::external_type_specification]
#[verifier::external_body]
pub struct ExPathBuf(PathBuf);

#[verifier::external_type_specification]
#[verifier::external_body]
#[verifier::reject_recursive_types(T)]
pub struct ExSender<T>(Sender<T>);

/// Render width (px) at 100% zoom.
pub const BASE_RENDER_WIDTH: i32 = 1100;

/// Commands sent from the application to the engine worker, each for one
/// document id.
pub enum Command {
    /// Open a document from a file.
    Open { id: u32, path: PathBuf },
    /// Render one page at the document's current resolution.
    Render { id: u32, index: i32 },
    /// Render one page's thumbnail.
    RenderThumb { id: u32, index: i32 },
    /// Change the document's render resolution (page width in px).
    SetRenderWidth { id: u32, width: i32 },
    /// Close the document, freeing its memory.
    Close { id: u32 },
}

/// Handle to the background PDF engine. All clones drive the same worker.
///
/// Each handle's channel keeps the log of the commands it has handed to
/// `Sender::send`, in order; each posting method appends exactly its one
/// command.
pub struct Engine {
    chan: CommandChannel,
}

impl Clone for Engine {
    /// A new handle on the same channel, with an empty log.
    fn clone(&self) -> (r: Self)
        ensures
            r.sent() == Seq::<Command>::empty(),
    {
        Engine { chan: self.chan.fresh_clone() }
    }
}

impl Engine {
    /// The channel this handle posts to.
    pub closed spec fn channel(&self) -> CommandChannel {
        self.chan
    }

    /// The commands this handle has posted, oldest first.
    pub open spec fn sent(&self) -> Seq<Command> {
        self.channel().log()
    }

    /// A handle that posts to the worker listening at the other end of `tx`,
    /// with an empty log.
    pub fn new(tx: Sender<Command>) -> (e: Engine)
        ensures
            e.channel().sender() == tx,
            e.sent() == Seq::<Command>::empty(),
    {
        Engine { chan: CommandChannel::new(tx) }
    }

    /// Open a document under `id`.
    pub fn open(&mut self, id: u32, path: PathBuf)
        ensures
            final(self).sent() == old(self).sent().push(Command::Open { id, path }),
            final(self).channel().sender() == old(self).channel().sender(),
    {
        self.chan.post(Command::Open { id, path });
    }

    /// Request a page render for document `id`. Already-rendered pages at
    /// the document's current resolution are ignored by the worker.
    pub fn render(&mut self, id: u32, index: i32)
        ensures
            final(self).sent() == old(self).sent().push(Command::Render { id, index }),
            final(self).channel().sender() == old(self).channel().sender(),
    {
        self.chan.post(Command::Render { id, index });
    }

    /// Request a thumbnail render for document `id`, page `index`.
    pub fn render_thumb(&mut self, id: u32, index: i32)
        ensures
            final(self).sent() == old(self).sent().push(Command::RenderThumb { id, index }),
            final(self).channel().sender() == old(self).channel().sender(),
    {
        self.chan.post(Command::RenderThumb { id, index });
    }

    /// Set the render resolution (page width in px) for document `id`.
    pub fn set_render_width(&mut self, id: u32, width: i32)
        ensures
            final(self).sent() == old(self).sent().push(Command::SetRenderWidth { id, width }),
            final(self).channel().sender() == old(self).channel().sender(),
    {
        self.chan.post(Command::SetRenderWidth { id, width });
    }

    /// Close document `id`, freeing its memory.
    pub fn close(&mut self, id: u32)
        ensures
            final(self).sent() == old(self).sent().push(Command::Close { id }),
            final(self).channel().sender() == old(self).channel().sender(),
    {
        self.chan.post(Command::Close { id });
    }
}

} // verus!
