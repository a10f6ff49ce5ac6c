//! The decisions of the engine's rendering worker.
//!
//! The worker owns one entry per open document: its page count, its render
//! resolution and the pages (and thumbnails) already rendered at that
//! resolution. For each [`Command`] the worker decides what outside work to do
//! next ([`Action`]); the caller does it (loading a file, rasterising a page)
//! and reports success back, which updates the state.
use vstd::prelude::*;
use std::collections::{HashMap, HashSet};
use std::path::PathBuf;
use crate::engine::{Command, Engine};

verus! {

broadcast use vstd::std_specs::hash::group_hash_axioms;

/// Narrowest render width (px), so extreme zoom-out stays legible.
pub const MIN_RENDER_WIDTH: i32 = 300;

/// Widest render width (px); bounds per-page bitmap memory.
pub const MAX_RENDER_WIDTH: i32 = 4400;

/// Width (px) of page thumbnails, independent of zoom.
pub const THUMB_WIDTH: i32 = 160;

/// `w` clamped into `[MIN_RENDER_WIDTH, MAX_RENDER_WIDTH]`.
pub open spec fn clamp_width(w: i32) -> i32 {
    if w < MIN_RENDER_WIDTH {
        MIN_RENDER_WIDTH
    } else if w > MAX_RENDER_WIDTH {
        MAX_RENDER_WIDTH
    } else {
        w
    }
}

/// The state of one open document.
pub struct DocState {
    pub total: i32,
    pub width: i32,
    pub rendered: Set<i32>,
    pub thumbs: Set<i32>,
}

/// The worker's state.
pub struct WorkerView {
    /// Render width of a newly opened document.
    pub initial_width: i32,
    pub docs: Map<u32, DocState>,
    /// Widths asked for documents that have not loaded yet.
    pub pending: Map<u32, i32>,
}

/// A command without its payload of outside data.
pub enum Request {
    Open { id: u32 },
    Render { id: u32, index: i32 },
    RenderThumb { id: u32, index: i32 },
    SetRenderWidth { id: u32, width: i32 },
    Close { id: u32 },
}

/// An action without its payload of outside data.
pub enum Outcome {
    Load { id: u32 },
    Render { id: u32, index: i32, width: i32 },
    RenderThumb { id: u32, index: i32, width: i32 },
    Release { id: u32 },
    Idle,
}

/// Outside work the worker asks for.
pub enum Action {
    /// Load the document at `path` and report it with [`Worker::loaded`].
    Load { id: u32, path: PathBuf },
    /// Render page `index` of `id` at `width` px; report success with
    /// [`Worker::page_rendered`].
    Render { id: u32, index: i32, width: i32 },
    /// Render the thumbnail of page `index` of `id` at `width` px; report
    /// success with [`Worker::thumb_rendered`].
    RenderThumb { id: u32, index: i32, width: i32 },
    /// Drop document `id`.
    Release { id: u32 },
    /// Nothing to do.
    Idle,
}

impl Command {
    pub open spec fn request(&self) -> Request {
        match *self {
            Command::Open { id, .. } => Request::Open { id },
            Command::Render { id, index } => Request::Render { id, index },
            Command::RenderThumb { id, index } => Request::RenderThumb { id, index },
            Command::SetRenderWidth { id, width } => Request::SetRenderWidth { id, width },
            Command::Close { id } => Request::Close { id },
        }
    }
}

impl Action {
    pub open spec fn outcome(&self) -> Outcome {
        match *self {
            Action::Load { id, .. } => Outcome::Load { id },
            Action::Render { id, index, width } => Outcome::Render { id, index, width },
            Action::RenderThumb { id, index, width } => Outcome::RenderThumb { id, index, width },
            Action::Release { id } => Outcome::Release { id },
            Action::Idle => Outcome::Idle,
        }
    }
}

/// Whether page `index` of a document is still to be rendered.
pub open spec fn wants_page(d: DocState, index: i32) -> bool {
    0 <= index < d.total && !d.rendered.contains(index)
}

/// Whether the thumbnail of page `index` is still to be rendered.
pub open spec fn wants_thumb(d: DocState, index: i32) -> bool {
    0 <= index < d.total && !d.thumbs.contains(index)
}

/// The worker's decision on a request: the next state and the outside work.
pub open spec fn step(s: WorkerView, r: Request) -> (WorkerView, Outcome) {
    match r {
        Request::Open { id } => (s, Outcome::Load { id }),
        Request::Render { id, index } => {
            if s.docs.contains_key(id) && wants_page(s.docs[id], index) {
                (s, Outcome::Render { id, index, width: s.docs[id].width })
            } else {
                (s, Outcome::Idle)
            }
        },
        Request::RenderThumb { id, index } => {
            if s.docs.contains_key(id) && wants_thumb(s.docs[id], index) {
                (s, Outcome::RenderThumb { id, index, width: THUMB_WIDTH })
            } else {
                (s, Outcome::Idle)
            }
        },
        Request::SetRenderWidth { id, width } => {
            let w = clamp_width(width);
            if s.docs.contains_key(id) {
                if w != s.docs[id].width {
                    let d = s.docs[id];
                    (
                        WorkerView {
                            docs: s.docs.insert(id, DocState { width: w, rendered: Set::empty(), ..d }),
                            ..s
                        },
                        Outcome::Idle,
                    )
                } else {
                    (s, Outcome::Idle)
                }
            } else {
                (WorkerView { pending: s.pending.insert(id, w), ..s }, Outcome::Idle)
            }
        },
        Request::Close { id } => (
            WorkerView { docs: s.docs.remove(id), pending: s.pending.remove(id), ..s },
            Outcome::Release { id },
        ),
    }
}

/// The width a document renders at once it loads: the width it already has
/// if it is open, else the width asked for it before it loaded, else the
/// initial width.
pub open spec fn load_width(s: WorkerView, id: u32) -> i32 {
    if s.docs.contains_key(id) {
        s.docs[id].width
    } else if s.pending.contains_key(id) {
        s.pending[id]
    } else {
        s.initial_width
    }
}

/// The state once document `id` has loaded with `total` pages: a fresh entry
/// at [`load_width`], nothing rendered (an earlier entry is replaced).
pub open spec fn after_load(s: WorkerView, id: u32, total: i32) -> WorkerView {
    WorkerView {
        docs: s.docs.insert(
            id,
            DocState { total, width: load_width(s, id), rendered: Set::empty(), thumbs: Set::empty() },
        ),
        pending: s.pending.remove(id),
        ..s
    }
}

/// The state once page `index` of `id` has rendered.
pub open spec fn after_page(s: WorkerView, id: u32, index: i32) -> WorkerView {
    if s.docs.contains_key(id) {
        let d = s.docs[id];
        WorkerView { docs: s.docs.insert(id, DocState { rendered: d.rendered.insert(index), ..d }), ..s }
    } else {
        s
    }
}

/// The state once the thumbnail of page `index` of `id` has rendered.
pub open spec fn after_thumb(s: WorkerView, id: u32, index: i32) -> WorkerView {
    if s.docs.contains_key(id) {
        let d = s.docs[id];
        WorkerView { docs: s.docs.insert(id, DocState { thumbs: d.thumbs.insert(index), ..d }), ..s }
    } else {
        s
    }
}


/// A page already rendered at a document's current resolution is not
/// rendered again.
pub proof fn law_rendered_page_not_repeated(s: WorkerView, id: u32, index: i32)
    requires
        s.docs.contains_key(id),
        s.docs[id].rendered.contains(index),
    ensures
        step(s, Request::Render { id, index }) == (s, Outcome::Idle),
{
}

/// Requests for pages outside a document, or for documents not open, are
/// ignored.
pub proof fn law_out_of_range_ignored(s: WorkerView, id: u32, index: i32)
    requires
        !s.docs.contains_key(id) || index < 0 || index >= s.docs[id].total,
    ensures
        step(s, Request::Render { id, index }) == (s, Outcome::Idle),
        step(s, Request::RenderThumb { id, index }) == (s, Outcome::Idle),
{
}

/// After a width change, every document's width lies within
/// `[MIN_RENDER_WIDTH, MAX_RENDER_WIDTH]` if it did before, and the changed
/// document's width does in any case.
pub proof fn law_width_clamped(s: WorkerView, id: u32, width: i32)
    requires
        s.docs.contains_key(id),
    ensures
        ({
            let t = step(s, Request::SetRenderWidth { id, width }).0;
            &&& t.docs.contains_key(id)
            &&& MIN_RENDER_WIDTH <= t.docs[id].width <= MAX_RENDER_WIDTH
            &&& t.docs[id].width == clamp_width(width)
        }),
{
}

/// Changing a document's resolution makes its pages render again, at the
/// new resolution.
pub proof fn law_width_change_rerenders(s: WorkerView, id: u32, width: i32, index: i32)
    requires
        s.docs.contains_key(id),
        clamp_width(width) != s.docs[id].width,
        0 <= index < s.docs[id].total,
    ensures
        step(step(s, Request::SetRenderWidth { id, width }).0, Request::Render { id, index }).1
            == (Outcome::Render { id, index, width: clamp_width(width) }),
{
}

/// The state after a width change request.
pub open spec fn set_width(s: WorkerView, id: u32, width: i32) -> WorkerView {
    step(s, Request::SetRenderWidth { id, width }).0
}

/// Setting the same width twice is the same as setting it once.
pub proof fn law_set_width_idempotent(s: WorkerView, id: u32, width: i32)
    ensures
        step(set_width(s, id, width), Request::SetRenderWidth { id, width }).0 == set_width(s, id, width),
{
    let w = clamp_width(width);
    assert(s.pending.insert(id, w).insert(id, w) =~= s.pending.insert(id, w));
}

/// Thumbnails are independent of zoom: a width change keeps the rendered
/// thumbnails, and thumbnails always render at `THUMB_WIDTH`.
pub proof fn law_thumbs_independent_of_zoom(s: WorkerView, id: u32, width: i32, index: i32)
    requires
        s.docs.contains_key(id),
    ensures
        step(s, Request::SetRenderWidth { id, width }).0.docs[id].thumbs == s.docs[id].thumbs,
        step(s, Request::RenderThumb { id, index }).1 is Idle || step(
            s,
            Request::RenderThumb { id, index },
        ).1 == (Outcome::RenderThumb { id, index, width: THUMB_WIDTH }),
{
}

/// A closed document renders nothing more.
pub proof fn law_closed_document_ignored(s: WorkerView, id: u32, index: i32)
    ensures
        ({
            let t = step(s, Request::Close { id }).0;
            &&& step(t, Request::Render { id, index }).1 == Outcome::Idle
            &&& step(t, Request::RenderThumb { id, index }).1 == Outcome::Idle
        }),
{
}

/// Once a page has rendered, asking again does nothing; its thumbnail too.
pub proof fn law_each_page_once(s: WorkerView, id: u32, index: i32)
    ensures
        step(after_page(s, id, index), Request::Render { id, index }).1 == Outcome::Idle,
        step(after_thumb(s, id, index), Request::RenderThumb { id, index }).1 == Outcome::Idle,
{
}

/// A freshly loaded document renders each of its pages, even if it was
/// open before: at the initial width for a new document with no width asked.
pub proof fn law_fresh_document_renders(s: WorkerView, id: u32, total: i32, index: i32)
    requires
        0 <= index < total,
    ensures
        step(after_load(s, id, total), Request::Render { id, index }).1 == (Outcome::Render {
            id,
            index,
            width: load_width(s, id),
        }),
        !s.docs.contains_key(id) && !s.pending.contains_key(id) ==> load_width(s, id) == s.initial_width,
{
}

/// A width asked for a document before it has loaded is the width it
/// renders at once loaded.
pub proof fn law_width_before_load(s: WorkerView, id: u32, width: i32, total: i32, index: i32)
    requires
        !s.docs.contains_key(id),
        0 <= index < total,
    ensures
        step(after_load(set_width(s, id, width), id, total), Request::Render { id, index }).1 == (Outcome::Render {
            id,
            index,
            width: clamp_width(width),
        }),
{
}

/// Opening, and the work a request asks for, never change other documents.
pub proof fn law_other_documents_untouched(s: WorkerView, r: Request, other: u32)
    requires
        s.docs.contains_key(other),
        match r {
            Request::Open { id } => id != other,
            Request::Render { id, .. } => id != other,
            Request::RenderThumb { id, .. } => id != other,
            Request::SetRenderWidth { id, .. } => id != other,
            Request::Close { id } => id != other,
        },
    ensures
        step(s, r).0.docs.contains_key(other),
        step(s, r).0.docs[other] == s.docs[other],
{
}


/// Recording a rendered thumbnail leaves the document's rendered pages, its
/// width and its page count as they were, and adds that one thumbnail; a page
/// whose thumbnail alone has rendered is still rendered at the document's width.
pub proof fn law_thumb_leaves_pages(s: WorkerView, id: u32, total: i32, index: i32)
    requires
        0 <= index < total,
    ensures
        s.docs.contains_key(id) ==> {
            let t = after_thumb(s, id, index);
            &&& t.docs.contains_key(id)
            &&& t.docs[id].rendered == s.docs[id].rendered
            &&& t.docs[id].width == s.docs[id].width
            &&& t.docs[id].total == s.docs[id].total
            &&& t.docs[id].thumbs == s.docs[id].thumbs.insert(index)
        },
        step(after_thumb(after_load(s, id, total), id, index), Request::Render { id, index }).1
            == (Outcome::Render { id, index, width: load_width(s, id) }),
{
    let t = after_thumb(after_load(s, id, total), id, index);
    assert(!t.docs[id].rendered.contains(index));
}

/// Recording a rendered page leaves the document's thumbnails, its width and
/// its page count as they were, and adds that one page; a page rendered in the
/// main view still has its thumbnail rendered, at [`THUMB_WIDTH`].
pub proof fn law_page_leaves_thumbs(s: WorkerView, id: u32, total: i32, index: i32)
    requires
        0 <= index < total,
    ensures
        s.docs.contains_key(id) ==> {
            let t = after_page(s, id, index);
            &&& t.docs.contains_key(id)
            &&& t.docs[id].thumbs == s.docs[id].thumbs
            &&& t.docs[id].width == s.docs[id].width
            &&& t.docs[id].total == s.docs[id].total
            &&& t.docs[id].rendered == s.docs[id].rendered.insert(index)
        },
        step(after_page(after_load(s, id, total), id, index), Request::RenderThumb { id, index }).1
            == (Outcome::RenderThumb { id, index, width: THUMB_WIDTH }),
{
    let t = after_page(after_load(s, id, total), id, index);
    assert(!t.docs[id].thumbs.contains(index));
}

/// Every page a document renders, it renders at that document's current
/// width, whatever pages have rendered before; so after a zoom, every page
/// not yet rendered renders at the new (clamped) width, not only the first.
pub proof fn law_render_at_current_width(s: WorkerView, id: u32, width: i32, done: i32, index: i32)
    ensures
        step(s, Request::Render { id, index }).1 is Idle || step(s, Request::Render { id, index }).1
            == (Outcome::Render { id, index, width: s.docs[id].width }),
        s.docs.contains_key(id) && clamp_width(width) != s.docs[id].width && index != done && 0 <= index
            < s.docs[id].total ==> step(
            after_page(set_width(s, id, width), id, done),
            Request::Render { id, index },
        ).1 == (Outcome::Render { id, index, width: clamp_width(width) }),
{
    if s.docs.contains_key(id) && clamp_width(width) != s.docs[id].width && index != done && 0 <= index
        < s.docs[id].total {
        let t = after_page(set_width(s, id, width), id, done);
        assert(!t.docs[id].rendered.contains(index));
    }
}

/// The worker serving one command from the channel, every render it asks
/// for succeeding.
pub open spec fn serve(s: WorkerView, c: Command) -> (WorkerView, Outcome) {
    let (t, o) = step(s, c.request());
    match o {
        Outcome::Render { id, index, .. } => (after_page(t, id, index), o),
        Outcome::RenderThumb { id, index, .. } => (after_thumb(t, id, index), o),
        _ => (t, o),
    }
}

/// The worker serving a log of commands in order: the final state and the
/// outside work asked for each command.
pub open spec fn serve_all(s: WorkerView, log: Seq<Command>) -> (WorkerView, Seq<Outcome>)
    decreases log.len(),
{
    if log.len() == 0 {
        (s, Seq::<Outcome>::empty())
    } else {
        let (t, os) = serve_all(s, log.drop_last());
        let (u, o) = serve(t, log.last());
        (u, os.push(o))
    }
}

/// Serving one more command extends the served log by that command's step.
proof fn lemma_serve_all_push(s: WorkerView, log: Seq<Command>, c: Command)
    ensures
        serve_all(s, log.push(c)).0 == serve(serve_all(s, log).0, c).0,
        serve_all(s, log.push(c)).1 == serve_all(s, log).1.push(serve(serve_all(s, log).0, c).1),
{
    assert(log.push(c).drop_last() =~= log);
}

/// Two render requests for the same page, posted one after the other by
/// [`Engine::render`], make the worker render it once: the second is ignored.
pub proof fn law_engine_render_twice_renders_once(s: WorkerView, e0: Engine, e1: Engine, e2: Engine, id: u32, index: i32)
    requires
        e1.sent() == e0.sent().push(Command::Render { id, index }),
        e2.sent() == e1.sent().push(Command::Render { id, index }),
    ensures
        serve_all(s, e2.sent()).1.last() == Outcome::Idle,
        serve_all(s, e2.sent()).1.len() == e2.sent().len(),
{
    lemma_serve_all_push(s, e0.sent(), Command::Render { id, index });
    lemma_serve_all_push(s, e1.sent(), Command::Render { id, index });
    lemma_serve_all_len(s, e2.sent());
}

/// Two thumbnail requests for the same page, posted by
/// [`Engine::render_thumb`], render it once, at [`THUMB_WIDTH`] if at all.
pub proof fn law_engine_thumb_twice_renders_once(s: WorkerView, e0: Engine, e1: Engine, e2: Engine, id: u32, index: i32)
    requires
        e1.sent() == e0.sent().push(Command::RenderThumb { id, index }),
        e2.sent() == e1.sent().push(Command::RenderThumb { id, index }),
    ensures
        serve_all(s, e2.sent()).1.last() == Outcome::Idle,
        serve_all(s, e1.sent()).1.last() is Idle || serve_all(s, e1.sent()).1.last()
            == (Outcome::RenderThumb { id, index, width: THUMB_WIDTH }),
{
    lemma_serve_all_push(s, e0.sent(), Command::RenderThumb { id, index });
    lemma_serve_all_push(s, e1.sent(), Command::RenderThumb { id, index });
}

/// After [`Engine::set_render_width`], a render request for a page of that
/// document renders at the clamped width whenever the width changed.
pub proof fn law_engine_width_then_render(
    s: WorkerView,
    e0: Engine,
    e1: Engine,
    e2: Engine,
    id: u32,
    width: i32,
    index: i32,
)
    requires
        e1.sent() == e0.sent().push(Command::SetRenderWidth { id, width }),
        e2.sent() == e1.sent().push(Command::Render { id, index }),
        serve_all(s, e0.sent()).0.docs.contains_key(id),
        clamp_width(width) != serve_all(s, e0.sent()).0.docs[id].width,
        0 <= index < serve_all(s, e0.sent()).0.docs[id].total,
    ensures
        serve_all(s, e2.sent()).1.last() == (Outcome::Render { id, index, width: clamp_width(width) }),
        MIN_RENDER_WIDTH <= clamp_width(width) <= MAX_RENDER_WIDTH,
{
    lemma_serve_all_push(s, e0.sent(), Command::SetRenderWidth { id, width });
    lemma_serve_all_push(s, e1.sent(), Command::Render { id, index });
}

/// [`Engine::set_render_width`] for one document leaves every other
/// document's width and rendered pages as they were.
pub proof fn law_engine_width_leaves_others(s: WorkerView, e0: Engine, e1: Engine, id: u32, width: i32, other: u32)
    requires
        e1.sent() == e0.sent().push(Command::SetRenderWidth { id, width }),
        serve_all(s, e0.sent()).0.docs.contains_key(other),
        other != id,
    ensures
        serve_all(s, e1.sent()).0.docs.contains_key(other),
        serve_all(s, e1.sent()).0.docs[other] == serve_all(s, e0.sent()).0.docs[other],
{
    lemma_serve_all_push(s, e0.sent(), Command::SetRenderWidth { id, width });
}

/// After [`Engine::close`], render and thumbnail requests for that document
/// are ignored.
pub proof fn law_engine_close_then_render(s: WorkerView, e0: Engine, e1: Engine, e2: Engine, id: u32, index: i32, thumb: bool)
    requires
        e1.sent() == e0.sent().push(Command::Close { id }),
        e2.sent() == e1.sent().push(
            if thumb { Command::RenderThumb { id, index } } else { Command::Render { id, index } },
        ),
    ensures
        serve_all(s, e1.sent()).1.last() == (Outcome::Release { id }),
        serve_all(s, e2.sent()).1.last() == Outcome::Idle,
{
    lemma_serve_all_push(s, e0.sent(), Command::Close { id });
    let c = if thumb { Command::RenderThumb { id, index } } else { Command::Render { id, index } };
    lemma_serve_all_push(s, e1.sent(), c);
}

/// Serving a log asks for one piece of work per command.
proof fn lemma_serve_all_len(s: WorkerView, log: Seq<Command>)
    ensures
        serve_all(s, log).1.len() == log.len(),
    decreases log.len(),
{
    if log.len() > 0 {
        lemma_serve_all_len(s, log.drop_last());
    }
}

/// One document's entry.
struct DocRender {
    total: i32,
    width: i32,
    rendered: HashSet<i32>,
    thumbs: HashSet<i32>,
}

impl DocRender {
    closed spec fn state(&self) -> DocState {
        DocState { total: self.total, width: self.width, rendered: self.rendered@, thumbs: self.thumbs@ }
    }
}

/// The rendering worker's state.
pub struct Worker {
    initial_width: i32,
    docs: HashMap<u32, DocRender>,
    pending: HashMap<u32, i32>,
}

impl View for Worker {
    type V = WorkerView;

    closed spec fn view(&self) -> WorkerView {
        WorkerView {
            initial_width: self.initial_width,
            docs: Map::new(|id: u32| self.docs@.contains_key(id), |id: u32| self.docs@[id].state()),
            pending: self.pending@,
        }
    }
}

impl Worker {
    /// The invariant: every document's width is the initial width or within
    /// `[MIN_RENDER_WIDTH, MAX_RENDER_WIDTH]`, every width asked before a
    /// load is within that range, and every page count is non-negative.
    pub closed spec fn wf(&self) -> bool {
        &&& forall|id: u32| #[trigger] self.docs@.contains_key(id) ==> {
            &&& (self.docs@[id].width == self.initial_width
                || MIN_RENDER_WIDTH <= self.docs@[id].width <= MAX_RENDER_WIDTH)
            &&& self.docs@[id].total >= 0
        }
        &&& forall|id: u32| #[trigger] self.pending@.contains_key(id) ==>
            MIN_RENDER_WIDTH <= self.pending@[id] <= MAX_RENDER_WIDTH
    }

    /// A worker with no open documents that opens new ones at `initial_width`.
    pub fn new(initial_width: i32) -> (w: Worker)
        ensures
            w.wf(),
            w@.initial_width == initial_width,
            w@.docs == Map::<u32, DocState>::empty(),
            w@.pending == Map::<u32, i32>::empty(),
    {
        let w = Worker { initial_width, docs: HashMap::new(), pending: HashMap::new() };
        assert(w@.docs =~= Map::<u32, DocState>::empty());
        assert(w@.pending =~= Map::<u32, i32>::empty());
        w
    }

    /// Decide what to do for `cmd`.
    pub fn handle(&mut self, cmd: Command) -> (a: Action)
        requires
            old(self).wf(),
        ensures
            final(self).wf(),
            (final(self)@, a.outcome()) == step(old(self)@, cmd.request()),
            match (cmd, a) {
                (Command::Open { path: p, .. }, Action::Load { path: q, .. }) => p == q,
                _ => true,
            },
            match a {
                Action::Render { index, width, .. } => 0 <= index < i32::MAX && (width == old(self)@.initial_width
                    || MIN_RENDER_WIDTH <= width <= MAX_RENDER_WIDTH),
                Action::RenderThumb { index, width, .. } => 0 <= index < i32::MAX && width == THUMB_WIDTH,
                _ => true,
            },
            match a {
                Action::Render { id, index, width } => {
                    &&& cmd matches Command::Render { id: c, index: i } && c == id && i == index
                    &&& old(self)@.docs.contains_key(id)
                    &&& width == old(self)@.docs[id].width
                    &&& wants_page(old(self)@.docs[id], index)
                },
                Action::RenderThumb { id, index, width } => {
                    &&& cmd matches Command::RenderThumb { id: c, index: i } && c == id && i == index
                    &&& old(self)@.docs.contains_key(id)
                    &&& width == THUMB_WIDTH
                    &&& wants_thumb(old(self)@.docs[id], index)
                },
                _ => true,
            },
            match cmd {
                Command::Render { id, index } => old(self)@.docs.contains_key(id) && wants_page(
                    old(self)@.docs[id],
                    index,
                ) ==> a == (Action::Render { id, index, width: old(self)@.docs[id].width }),
                Command::RenderThumb { id, index } => old(self)@.docs.contains_key(id) && wants_thumb(
                    old(self)@.docs[id],
                    index,
                ) ==> a == (Action::RenderThumb { id, index, width: THUMB_WIDTH }),
                _ => true,
            },
    {
        match cmd {
            Command::Open { id, path } => Action::Load { id, path },
            Command::Render { id, index } => {
                match self.docs.get(&id) {
                    Some(d) => {
                        if 0 <= index && index < d.total && !d.rendered.contains(&index) {
                            Action::Render { id, index, width: d.width }
                        } else {
                            Action::Idle
                        }
                    },
                    None => Action::Idle,
                }
            },
            Command::RenderThumb { id, index } => {
                match self.docs.get(&id) {
                    Some(d) => {
                        if 0 <= index && index < d.total && !d.thumbs.contains(&index) {
                            Action::RenderThumb { id, index, width: THUMB_WIDTH }
                        } else {
                            Action::Idle
                        }
                    },
                    None => Action::Idle,
                }
            },
            Command::SetRenderWidth { id, width } => {
                let w = if width < MIN_RENDER_WIDTH {
                    MIN_RENDER_WIDTH
                } else if width > MAX_RENDER_WIDTH {
                    MAX_RENDER_WIDTH
                } else {
                    width
                };
                let ghost before = self@;
                match self.docs.remove(&id) {
                    Some(mut d) => {
                        if w != d.width {
                            d.width = w;
                            d.rendered.clear();
                        }
                        self.docs.insert(id, d);
                        assert(self@.docs =~= step(before, cmd.request()).0.docs);
                        assert(self@.pending =~= before.pending);
                    },
                    None => {
                        self.pending.insert(id, w);
                        assert(self@.docs =~= before.docs);
                        assert(self@.pending =~= before.pending.insert(id, w));
                    },
                }
                Action::Idle
            },
            Command::Close { id } => {
                let ghost before = self@;
                self.docs.remove(&id);
                self.pending.remove(&id);
                assert(self@.docs =~= before.docs.remove(id));
                assert(self@.pending =~= before.pending.remove(id));
                Action::Release { id }
            },
        }
    }

    /// Record that document `id` loaded with `total` pages.
    pub fn loaded(&mut self, id: u32, total: i32)
        requires
            old(self).wf(),
            total >= 0,
        ensures
            final(self).wf(),
            final(self)@ == after_load(old(self)@, id, total),
    {
        let ghost before = self@;
        let width = match self.docs.get(&id) {
            Some(d) => d.width,
            None => match self.pending.get(&id) {
                Some(w) => *w,
                None => self.initial_width,
            },
        };
        self.pending.remove(&id);
        let d = DocRender { total, width, rendered: HashSet::new(), thumbs: HashSet::new() };
        self.docs.insert(id, d);
        assert(self@.docs =~= after_load(before, id, total).docs);
        assert(self@.pending =~= after_load(before, id, total).pending);
    }

    /// Record that page `index` of `id` rendered at the current width.
    pub fn page_rendered(&mut self, id: u32, index: i32)
        requires
            old(self).wf(),
        ensures
            final(self).wf(),
            final(self)@ == after_page(old(self)@, id, index),
            old(self)@.docs.contains_key(id) ==> {
                &&& final(self)@.docs.contains_key(id)
                &&& final(self)@.docs[id].rendered == old(self)@.docs[id].rendered.insert(index)
                &&& final(self)@.docs[id].thumbs == old(self)@.docs[id].thumbs
                &&& final(self)@.docs[id].width == old(self)@.docs[id].width
                &&& final(self)@.docs[id].total == old(self)@.docs[id].total
            },
    {
        let ghost before = self@;
        match self.docs.remove(&id) {
            Some(mut d) => {
                d.rendered.insert(index);
                self.docs.insert(id, d);
                assert(self@.docs =~= after_page(before, id, index).docs);
            },
            None => {
                assert(self@.docs =~= before.docs);
            },
        }
    }

    /// Record that the thumbnail of page `index` of `id` rendered.
    pub fn thumb_rendered(&mut self, id: u32, index: i32)
        requires
            old(self).wf(),
        ensures
            final(self).wf(),
            final(self)@ == after_thumb(old(self)@, id, index),
            old(self)@.docs.contains_key(id) ==> {
                &&& final(self)@.docs.contains_key(id)
                &&& final(self)@.docs[id].thumbs == old(self)@.docs[id].thumbs.insert(index)
                &&& final(self)@.docs[id].rendered == old(self)@.docs[id].rendered
                &&& final(self)@.docs[id].width == old(self)@.docs[id].width
                &&& final(self)@.docs[id].total == old(self)@.docs[id].total
            },
    {
        let ghost before = self@;
        match self.docs.remove(&id) {
            Some(mut d) => {
                d.thumbs.insert(index);
                self.docs.insert(id, d);
                assert(self@.docs =~= after_thumb(before, id, index).docs);
            },
            None => {
                assert(self@.docs =~= before.docs);
            },
        }
    }
}

} // verus!
