//! The open-documents store: one entry per tab, and which tab is active.
//!
//! Each tab carries two payloads that the library does not interpret: `V`,
//! the front end's view of the tab (zoom and scroll positions), which the
//! store saves when focus leaves the tab and hands back when focus returns;
//! and `D`, the front end's data for the document (page models, page sizes).
use vstd::prelude::*;
use crate::paths::{file_name_of, path_file_name, paths_equal, same_path};
use crate::format::{date_text, fmt_pdf_date, fmt_size, pages_status, pages_status_text, size_text};
use crate::text::{push_signed_decimal, signed_decimal, string_of};

verus! {

/// Document metadata shown in the properties panel (read once on open).
pub struct DocMeta {
    pub title: String,
    pub author: String,
    pub subject: String,
    pub keywords: String,
    pub creator: String,
    pub producer: String,
    pub created: String,
    pub modified: String,
    pub version: String,
}

impl DocMeta {
    /// Metadata with every field empty.
    pub fn empty() -> (m: DocMeta)
        ensures
            m.title@.len() == 0,
            m.author@.len() == 0,
            m.subject@.len() == 0,
            m.keywords@.len() == 0,
            m.creator@.len() == 0,
            m.producer@.len() == 0,
            m.created@.len() == 0,
            m.modified@.len() == 0,
            m.version@.len() == 0,
    {
        DocMeta {
            title: String::new(),
            author: String::new(),
            subject: String::new(),
            keywords: String::new(),
            creator: String::new(),
            producer: String::new(),
            created: String::new(),
            modified: String::new(),
            version: String::new(),
        }
    }
}

impl Default for DocMeta {
    fn default() -> (m: DocMeta)
        ensures
            m.title@.len() == 0,
            m.author@.len() == 0,
            m.subject@.len() == 0,
            m.keywords@.len() == 0,
            m.creator@.len() == 0,
            m.producer@.len() == 0,
            m.created@.len() == 0,
            m.modified@.len() == 0,
            m.version@.len() == 0,
    {
        DocMeta::empty()
    }
}

/// One open document, shown as one tab.
pub struct Tab<V, D> {
    pub id: u32,
    /// The document's path, as text.
    pub path: String,
    /// Display name (the file name).
    pub name: String,
    /// Number of pages; 0 until the engine reports the document open.
    pub total: i32,
    pub meta: DocMeta,
    pub file_size: u64,
    /// Per-tab view state, saved when switching away and restored on return.
    pub display_mode: i32,
    pub current_page: i32,
    /// The front end's saved view of this tab (zoom, scroll position).
    pub view: V,
    /// The front end's data for this document (page models, page sizes).
    pub data: D,
}

/// One entry of the tab strip.
pub struct TabItem {
    pub id: i32,
    pub name: String,
    pub active: bool,
}

/// The properties panel of the active document.
pub struct DocProps {
    pub file_name: String,
    pub file_path: String,
    pub file_size: String,
    pub title: String,
    pub author: String,
    pub subject: String,
    pub keywords: String,
    pub creator: String,
    pub producer: String,
    pub created: String,
    pub modified: String,
    pub version: String,
    pub pages: String,
}

/// The model slot for page `index` of a page model with `rows` rows, if
/// the page is within it (the document may have changed since the page was
/// queued).
pub fn page_slot(index: i32, rows: usize) -> (r: Option<usize>)
    ensures
        r == (if (index as usize) < rows { Some(index as usize) } else { None::<usize> }),
        r matches Some(i) ==> i < rows,
{
    let i = index as usize;
    if i < rows {
        Some(i)
    } else {
        None
    }
}

/// What opening a path did.
pub enum OpenOutcome {
    /// The path was already open in tab `id`; `changed` tells whether that
    /// tab became active (it was not active before).
    Existing { id: u32, changed: bool },
    /// A new tab `id` was added for the path and made active.
    Added { id: u32 },
}

/// The status line when no document is open.
pub open spec fn no_document_text() -> Seq<char> {
    "No document open — use File ▸ Open to load a PDF."@
}

/// The display name of a document at `path`: its file name, or `document`.
pub open spec fn doc_name(path: Seq<char>) -> Seq<char> {
    match path_file_name(path) {
        Some(n) => n,
        None => "document"@,
    }
}

/// The display name of the document at `path`.
pub fn name_for_path(path: &str) -> (r: String)
    ensures
        r@ == doc_name(path@),
{
    match file_name_of(path) {
        Some(n) => n,
        None => String::from_str("document"),
    }
}

/// All open tabs plus which one is active.
pub struct DocStore<V, D> {
    tabs: Vec<Tab<V, D>>,
    /// Index into `tabs`; 0 when no tab is open.
    active: usize,
    next_id: u32,
}

/// The mathematical model of a [`DocStore`].
pub struct StoreView<V, D> {
    pub tabs: Seq<Tab<V, D>>,
    pub active: nat,
    /// The id that the next allocation hands out.
    pub next_id: int,
}

impl<V, D> View for DocStore<V, D> {
    type V = StoreView<V, D>;

    closed spec fn view(&self) -> StoreView<V, D> {
        StoreView { tabs: self.tabs@, active: self.active as nat, next_id: self.next_id as int }
    }
}

/// The tabs after the live view (`mode`, `page`, `view`) is saved into the
/// tab at `active`, if there is one.
pub open spec fn saved_view<V, D>(tabs: Seq<Tab<V, D>>, active: int, mode: i32, page: i32, view: V) -> Seq<Tab<V, D>> {
    if 0 <= active < tabs.len() {
        tabs.update(active, Tab { display_mode: mode, current_page: page, view: view, ..tabs[active] })
    } else {
        tabs
    }
}

/// The active index after the tab at `idx` is removed, leaving `new_len` tabs:
/// a tab before the active one shifts it down, and an active index past the
/// end falls back to the last tab.
pub open spec fn active_after_close(active: int, idx: int, new_len: int) -> int {
    if new_len == 0 {
        0
    } else if idx < active || active >= new_len {
        let dec = if active > 0 { active - 1 } else { 0 };
        if dec < new_len - 1 { dec } else { new_len - 1 }
    } else {
        active
    }
}

impl<V, D> Default for DocStore<V, D> {
    fn default() -> (s: Self)
        ensures
            s.wf(),
            s@.tabs.len() == 0,
            s@.active == 0,
            s@.next_id == 0,
    {
        DocStore::new()
    }
}

impl<V, D> DocStore<V, D> {
    /// The store's invariant: the active index is within the tabs (0 when
    /// there are none), and every tab has its own id, below the next id.
    pub closed spec fn wf(&self) -> bool {
        &&& if self.tabs@.len() == 0 { self.active == 0 } else { self.active < self.tabs@.len() }
        &&& forall|i: int, j: int|
            0 <= i < j < self.tabs@.len() ==> #[trigger] self.tabs@[i].id != #[trigger] self.tabs@[j].id
        &&& forall|i: int| 0 <= i < self.tabs@.len() ==> #[trigger] self.tabs@[i].id < self.next_id
        &&& forall|i: int, j: int|
            0 <= i < j < self.tabs@.len() ==> !same_path(#[trigger] self.tabs@[i].path@, #[trigger] self.tabs@[j].path@)
    }

    /// An empty store.
    pub fn new() -> (s: Self)
        ensures
            s.wf(),
            s@.tabs.len() == 0,
            s@.active == 0,
            s@.next_id == 0,
    {
        DocStore { tabs: Vec::new(), active: 0, next_id: 0 }
    }

    /// Whether every id has been handed out already.
    pub fn ids_exhausted(&self) -> (r: bool)
        ensures
            r == (self@.next_id == u32::MAX),
    {
        self.next_id == u32::MAX
    }

    /// Index of the first tab with `id`.
    pub fn index_of(&self, id: u32) -> (r: Option<usize>)
        ensures
            match r {
                Some(i) => i < self@.tabs.len() && self@.tabs[i as int].id == id && forall|j: int|
                    0 <= j < i ==> #[trigger] self@.tabs[j].id != id,
                None => forall|j: int| 0 <= j < self@.tabs.len() ==> #[trigger] self@.tabs[j].id != id,
            },
    {
        let mut i: usize = 0;
        while i < self.tabs.len()
            invariant
                i <= self.tabs@.len(),
                self@.tabs == self.tabs@,
                forall|j: int| 0 <= j < i ==> #[trigger] self@.tabs[j].id != id,
            decreases self.tabs@.len() - i,
        {
            if self.tabs[i].id == id {
                return Some(i);
            }
            i = i + 1;
        }
        None
    }

    /// The active tab, if any.
    pub fn active_tab(&self) -> (r: Option<&Tab<V, D>>)
        ensures
            match r {
                Some(t) => self@.active < self@.tabs.len() && *t == self@.tabs[self@.active as int],
                None => self@.active >= self@.tabs.len(),
            },
    {
        if self.active < self.tabs.len() {
            Some(&self.tabs[self.active])
        } else {
            None
        }
    }

    /// Mutable access to the active tab, if any. The store's invariant holds
    /// afterwards as long as the caller leaves the tab's id and path unchanged.
    pub fn active_tab_mut(&mut self) -> (r: Option<&mut Tab<V, D>>)
        ensures
            match r {
                Some(t) => {
                    &&& old(self)@.active < old(self)@.tabs.len()
                    &&& *t == old(self)@.tabs[old(self)@.active as int]
                    &&& final(self)@ == StoreView { tabs: old(self)@.tabs.update(old(self)@.active as int, *final(t)), ..old(self)@ }
                    &&& old(self).wf() && final(t).id == t.id && final(t).path == t.path ==> final(self).wf()
                },
                None => old(self)@.active >= old(self)@.tabs.len() && final(self)@ == old(self)@,
            },
    {
        if self.active < self.tabs.len() {
            let a = self.active;
            Some(&mut self.tabs[a])
        } else {
            None
        }
    }

    /// The status line shown when the active tab is (re)applied: the
    /// document's name and page count once its pages are known (`None`,
    /// leaving the status as it was, before that), or the empty-state hint
    /// when no tab is open.
    pub fn active_status(&self) -> (r: Option<String>)
        ensures
            self@.active < self@.tabs.len() ==> {
                let t = self@.tabs[self@.active as int];
                if t.total > 0 {
                    r matches Some(m) && m@ == pages_status_text(t.name@, t.total as int)
                } else {
                    r is None
                }
            },
            self@.active >= self@.tabs.len() ==> (r matches Some(m) && m@ == no_document_text()),
    {
        match self.active_tab() {
            Some(t) => {
                if t.total > 0 {
                    Some(pages_status(t.name.as_str(), t.total))
                } else {
                    None
                }
            },
            None => Some(String::from_str("No document open — use File ▸ Open to load a PDF.")),
        }
    }

    /// Allocate the next document id.
    pub fn alloc_id(&mut self) -> (id: u32)
        requires
            old(self).wf(),
            old(self)@.next_id < u32::MAX,
        ensures
            final(self).wf(),
            id == old(self)@.next_id,
            final(self)@.next_id == old(self)@.next_id + 1,
            final(self)@.tabs == old(self)@.tabs,
            final(self)@.active == old(self)@.active as int,
    {
        let id = self.next_id;
        self.next_id = self.next_id + 1;
        id
    }

    /// Save the live view into the active tab (nothing happens without one).
    pub fn save_active_view(&mut self, display_mode: i32, current_page: i32, view: V)
        requires
            old(self).wf(),
        ensures
            final(self).wf(),
            final(self)@.tabs == saved_view(old(self)@.tabs, old(self)@.active as int, display_mode, current_page, view),
            final(self)@.active == old(self)@.active as int,
            final(self)@.next_id == old(self)@.next_id,
    {
        if self.active < self.tabs.len() {
            let a = self.active;
            let t = &mut self.tabs[a];
            t.display_mode = display_mode;
            t.current_page = current_page;
            t.view = view;
        }
    }

    /// The open tabs, in strip order.
    pub fn tabs(&self) -> (r: &Vec<Tab<V, D>>)
        ensures
            r@ == self@.tabs,
    {
        &self.tabs
    }

    /// Index of the active tab (0 when no tab is open).
    pub fn active(&self) -> (r: usize)
        ensures
            r == self@.active as int,
    {
        self.active
    }

    /// Mutable access to the front end's data for the tab at `idx`.
    pub fn data_mut(&mut self, idx: usize) -> (r: &mut D)
        requires
            old(self).wf(),
            idx < old(self)@.tabs.len(),
        ensures
            *r == old(self)@.tabs[idx as int].data,
            final(self).wf(),
            final(self)@.tabs == old(self)@.tabs.update(
                idx as int,
                Tab { data: *final(r), ..old(self)@.tabs[idx as int] },
            ),
            final(self)@.active == old(self)@.active as int,
            final(self)@.next_id == old(self)@.next_id,
    {
        &mut self.tabs[idx].data
    }

    /// Make the tab with `id` active, first saving the live view into the
    /// tab being left. Returns whether the active tab changed; nothing
    /// changes when no tab has `id` or it is already active.
    pub fn select_tab(&mut self, id: u32, display_mode: i32, current_page: i32, view: V) -> (changed: bool)
        requires
            old(self).wf(),
        ensures
            final(self).wf(),
            final(self)@.next_id == old(self)@.next_id,
            changed == exists|i: int|
                0 <= i < old(self)@.tabs.len() && #[trigger] old(self)@.tabs[i].id == id && i != old(self)@.active as int,
            changed ==> final(self)@.tabs == saved_view(
                old(self)@.tabs,
                old(self)@.active as int,
                display_mode,
                current_page,
                view,
            ) && final(self)@.tabs[final(self)@.active as int].id == id,
            !changed ==> final(self)@ == old(self)@,
    {
        match self.index_of(id) {
            Some(i) => {
                if i == self.active {
                    return false;
                }
                self.save_active_view(display_mode, current_page, view);
                self.active = i;
                true
            },
            None => false,
        }
    }

    /// Close the tab with `id` and activate a neighbour (or the empty state if
    /// it was the last tab). Returns whether the closed tab was the active one.
    pub fn close_tab(&mut self, id: u32) -> (removed_active: bool)
        requires
            old(self).wf(),
        ensures
            final(self).wf(),
            final(self)@.next_id == old(self)@.next_id,
            forall|idx: int|
                0 <= idx < old(self)@.tabs.len() && #[trigger] old(self)@.tabs[idx].id == id ==> {
                    &&& final(self)@.tabs == old(self)@.tabs.remove(idx)
                    &&& final(self)@.active == active_after_close(
                        old(self)@.active as int,
                        idx,
                        old(self)@.tabs.len() - 1,
                    )
                    &&& removed_active == (idx == old(self)@.active as int)
                },
            (forall|idx: int| 0 <= idx < old(self)@.tabs.len() ==> #[trigger] old(self)@.tabs[idx].id != id)
                ==> final(self)@ == old(self)@ && !removed_active,
    {
        let idx = match self.index_of(id) {
            Some(i) => i,
            None => {
                return false;
            },
        };
        let was_active = idx == self.active;
        let ghost old_tabs = self.tabs@;
        self.tabs.remove(idx);
        if self.tabs.len() == 0 {
            self.active = 0;
        } else if idx < self.active || self.active >= self.tabs.len() {
            let dec = self.active.saturating_sub(1);
            self.active = if dec < self.tabs.len() - 1 { dec } else { self.tabs.len() - 1 };
        }
        assert forall|i: int, j: int| 0 <= i < j < self.tabs@.len() implies
            #[trigger] self.tabs@[i].id != #[trigger] self.tabs@[j].id by {
            let oi = if i < idx { i } else { i + 1 };
            let oj = if j < idx { j } else { j + 1 };
            assert(self.tabs@[i] == old_tabs[oi]);
            assert(self.tabs@[j] == old_tabs[oj]);
        }
        assert forall|i: int| 0 <= i < self.tabs@.len() implies #[trigger] self.tabs@[i].id < self.next_id by {
            let oi = if i < idx { i } else { i + 1 };
            assert(self.tabs@[i] == old_tabs[oi]);
        }
        assert forall|i: int, j: int| 0 <= i < j < self.tabs@.len() implies
            !same_path(#[trigger] self.tabs@[i].path@, #[trigger] self.tabs@[j].path@) by {
            let oi = if i < idx { i } else { i + 1 };
            let oj = if j < idx { j } else { j + 1 };
            assert(self.tabs@[i] == old_tabs[oi]);
            assert(self.tabs@[j] == old_tabs[oj]);
        }
        was_active
    }

    /// Index of the tab that holds the same path as `path`, if any.
    pub fn find_path(&self, path: &str) -> (r: Option<usize>)
        ensures
            match r {
                Some(i) => i < self@.tabs.len() && same_path(self@.tabs[i as int].path@, path@),
                None => forall|k: int|
                    0 <= k < self@.tabs.len() ==> !same_path(#[trigger] self@.tabs[k].path@, path@),
            },
    {
        let mut i: usize = 0;
        while i < self.tabs.len()
            invariant
                i <= self.tabs@.len(),
                self@.tabs == self.tabs@,
                forall|k: int| 0 <= k < i ==> !same_path(#[trigger] self@.tabs[k].path@, path@),
            decreases self.tabs@.len() - i,
        {
            if paths_equal(self.tabs[i].path.as_str(), path) {
                return Some(i);
            }
            i = i + 1;
        }
        None
    }

    /// Open `path`: when a tab already holds the same path, switch to it (as
    /// [`DocStore::select_tab`] does); otherwise save the live view into the
    /// active tab, add a tab for the path with view `fresh` and data `data`,
    /// on page 1 in the live display mode, and make it active.
    pub fn open_document(
        &mut self,
        path: String,
        file_size: u64,
        display_mode: i32,
        current_page: i32,
        view: V,
        fresh: V,
        data: D,
    ) -> (r: OpenOutcome)
        requires
            old(self).wf(),
            (exists|k: int|
                0 <= k < old(self)@.tabs.len() && same_path(#[trigger] old(self)@.tabs[k].path@, path@))
                || old(self)@.next_id < u32::MAX,
        ensures
            final(self).wf(),
            (exists|k: int|
                0 <= k < old(self)@.tabs.len() && same_path(#[trigger] old(self)@.tabs[k].path@, path@))
                ==> exists|k: int|
                0 <= k < old(self)@.tabs.len() && same_path(#[trigger] old(self)@.tabs[k].path@, path@) && {
                    &&& r == (OpenOutcome::Existing { id: old(self)@.tabs[k].id, changed: k != old(self)@.active })
                    &&& k != old(self)@.active ==> final(self)@ == StoreView {
                        tabs: saved_view(old(self)@.tabs, old(self)@.active as int, display_mode, current_page, view),
                        active: k as nat,
                        next_id: old(self)@.next_id,
                    }
                    &&& k == old(self)@.active ==> final(self)@ == old(self)@
                },
            (forall|k: int|
                0 <= k < old(self)@.tabs.len() ==> !same_path(#[trigger] old(self)@.tabs[k].path@, path@))
                ==> {
                let n = old(self)@.tabs.len();
                let t = final(self)@.tabs[n as int];
                &&& r == (OpenOutcome::Added { id: old(self)@.next_id as u32 })
                &&& final(self)@.tabs.len() == n + 1
                &&& final(self)@.tabs.take(n as int) == saved_view(
                    old(self)@.tabs,
                    old(self)@.active as int,
                    display_mode,
                    current_page,
                    view,
                )
                &&& final(self)@.active == n
                &&& final(self)@.next_id == old(self)@.next_id + 1
                &&& t.id == old(self)@.next_id
                &&& t.path@ == path@
                &&& t.name@ == doc_name(path@)
                &&& t.total == 0
                &&& t.file_size == file_size
                &&& t.display_mode == display_mode
                &&& t.current_page == 1
                &&& t.view == fresh
                &&& t.data == data
                &&& t.meta.title@.len() == 0 && t.meta.author@.len() == 0 && t.meta.subject@.len() == 0
                &&& t.meta.keywords@.len() == 0 && t.meta.creator@.len() == 0
                &&& t.meta.producer@.len() == 0 && t.meta.created@.len() == 0
                &&& t.meta.modified@.len() == 0 && t.meta.version@.len() == 0
            },
    {
        match self.find_path(path.as_str()) {
            Some(k) => {
                let id = self.tabs[k].id;
                let changed = self.select_tab(id, display_mode, current_page, view);
                proof {
                    assert(old(self)@.tabs[k as int].id == id);
                    assert forall|i: int| 0 <= i < old(self)@.tabs.len() && #[trigger] old(self)@.tabs[i].id == id
                        implies i == k by {
                        if i < k {
                            assert(old(self)@.tabs[i].id != old(self)@.tabs[k as int].id);
                        } else if i > k {
                            assert(old(self)@.tabs[k as int].id != old(self)@.tabs[i].id);
                        }
                    }
                }
                OpenOutcome::Existing { id, changed }
            },
            None => {
                let name = name_for_path(path.as_str());
                self.save_active_view(display_mode, current_page, view);
                let id = self.alloc_id();
                let ghost before = self.tabs@;
                self.tabs.push(Tab {
                    id,
                    path,
                    name,
                    total: 0,
                    meta: DocMeta::empty(),
                    file_size,
                    display_mode,
                    current_page: 1,
                    view: fresh,
                    data,
                });
                self.active = self.tabs.len() - 1;
                proof {
                    let n = before.len();
                    assert(self.tabs@.take(n as int) =~= before);
                    assert forall|i: int, j: int| 0 <= i < j < self.tabs@.len() implies
                        #[trigger] self.tabs@[i].id != #[trigger] self.tabs@[j].id by {
                        if j == n {
                            assert(self.tabs@[i] == before[i]);
                        }
                    }
                    assert forall|i: int, j: int| 0 <= i < j < self.tabs@.len() implies
                        !same_path(#[trigger] self.tabs@[i].path@, #[trigger] self.tabs@[j].path@) by {
                        if j == n {
                            assert(self.tabs@[i] == before[i]);
                            assert(before[i].path == old(self)@.tabs[i].path);
                        }
                    }
                }
                OpenOutcome::Added { id }
            },
        }
    }

    /// The tab strip: one item per tab, in order, marking the active one.
    pub fn tab_items(&self) -> (r: Vec<TabItem>)
        ensures
            r@.len() == self@.tabs.len(),
            forall|i: int|
                0 <= i < r@.len() ==> {
                    &&& (#[trigger] r@[i]).id == self@.tabs[i].id as i32
                    &&& r@[i].name@ == self@.tabs[i].name@
                    &&& r@[i].active == (i == self@.active as int)
                },
    {
        let mut out: Vec<TabItem> = Vec::new();
        let mut i: usize = 0;
        while i < self.tabs.len()
            invariant
                i <= self.tabs@.len(),
                self@.tabs == self.tabs@,
                self@.active == self.active,
                out@.len() == i,
                forall|k: int|
                    0 <= k < i ==> {
                        &&& (#[trigger] out@[k]).id == self@.tabs[k].id as i32
                        &&& out@[k].name@ == self@.tabs[k].name@
                        &&& out@[k].active == (k == self@.active as int)
                    },
            decreases self.tabs@.len() - i,
        {
            let t = &self.tabs[i];
            out.push(TabItem { id: t.id as i32, name: t.name.clone(), active: i == self.active });
            i = i + 1;
        }
        out
    }

    /// The properties panel for the active tab, if any: its name, path,
    /// size, metadata (dates reformatted) and page count.
    pub fn props(&self) -> (r: Option<DocProps>)
        ensures
            match r {
                None => self@.active >= self@.tabs.len(),
                Some(p) => self@.active < self@.tabs.len() && {
                    let t = self@.tabs[self@.active as int];
                    &&& p.file_name@ == t.name@
                    &&& p.file_path@ == t.path@
                    &&& p.file_size@ == size_text(t.file_size as nat)
                    &&& p.title@ == t.meta.title@
                    &&& p.author@ == t.meta.author@
                    &&& p.subject@ == t.meta.subject@
                    &&& p.keywords@ == t.meta.keywords@
                    &&& p.creator@ == t.meta.creator@
                    &&& p.producer@ == t.meta.producer@
                    &&& p.created@ == date_text(t.meta.created@)
                    &&& p.modified@ == date_text(t.meta.modified@)
                    &&& p.version@ == t.meta.version@
                    &&& p.pages@ == signed_decimal(t.total as int)
                },
            },
    {
        match self.active_tab() {
            None => None,
            Some(t) => {
                let mut pages: Vec<char> = Vec::new();
                push_signed_decimal(&mut pages, t.total as i64);
                Some(DocProps {
                    file_name: t.name.clone(),
                    file_path: t.path.clone(),
                    file_size: fmt_size(t.file_size),
                    title: t.meta.title.clone(),
                    author: t.meta.author.clone(),
                    subject: t.meta.subject.clone(),
                    keywords: t.meta.keywords.clone(),
                    creator: t.meta.creator.clone(),
                    producer: t.meta.producer.clone(),
                    created: fmt_pdf_date(t.meta.created.as_str()),
                    modified: fmt_pdf_date(t.meta.modified.as_str()),
                    version: t.meta.version.clone(),
                    pages: string_of(&pages),
                })
            },
        }
    }

    /// Record that the engine opened document `id`: its name, page count and
    /// metadata. Returns the tab's index and whether it is the active tab, or
    /// `None` (and changes nothing) when no tab has `id` any more.
    pub fn opened(&mut self, id: u32, name: String, total: i32, meta: DocMeta) -> (r: Option<(usize, bool)>)
        requires
            old(self).wf(),
        ensures
            final(self).wf(),
            final(self)@.active == old(self)@.active as int,
            final(self)@.next_id == old(self)@.next_id,
            match r {
                Some((i, is_active)) => {
                    &&& i < old(self)@.tabs.len()
                    &&& old(self)@.tabs[i as int].id == id
                    &&& is_active == (i == old(self)@.active as int)
                    &&& final(self)@.tabs == old(self)@.tabs.update(
                        i as int,
                        Tab { name: name, total: total, meta: meta, ..old(self)@.tabs[i as int] },
                    )
                },
                None => {
                    &&& final(self)@ == old(self)@
                    &&& forall|j: int| 0 <= j < old(self)@.tabs.len() ==> #[trigger] old(self)@.tabs[j].id != id
                },
            },
    {
        match self.index_of(id) {
            None => None,
            Some(i) => {
                let is_active = i == self.active;
                let t = &mut self.tabs[i];
                t.name = name;
                t.total = total;
                t.meta = meta;
                proof {
                    assert forall|a: int, b: int| 0 <= a < b < self.tabs@.len() implies
                        !same_path(#[trigger] self.tabs@[a].path@, #[trigger] self.tabs@[b].path@) by {
                        assert(self.tabs@[a].path == old(self)@.tabs[a].path);
                        assert(self.tabs@[b].path == old(self)@.tabs[b].path);
                    }
                }
                Some((i, is_active))
            },
        }
    }
}


/// In a well-formed store, tabs have distinct ids and distinct paths, and
/// every id is below the next id to be handed out.
pub proof fn law_tabs_distinct<V, D>(s: DocStore<V, D>)
    requires
        s.wf(),
    ensures
        forall|i: int, j: int|
            0 <= i < j < s@.tabs.len() ==> #[trigger] s@.tabs[i].id != #[trigger] s@.tabs[j].id,
        forall|i: int, j: int|
            0 <= i < j < s@.tabs.len() ==> !same_path(#[trigger] s@.tabs[i].path@, #[trigger] s@.tabs[j].path@),
        forall|i: int| 0 <= i < s@.tabs.len() ==> #[trigger] s@.tabs[i].id < s@.next_id,
        s@.tabs.len() == 0 ==> s@.active == 0,
        s@.tabs.len() > 0 ==> 0 <= s@.active < s@.tabs.len(),
{
}

/// Closing a tab other than the active one leaves the same tab active.
pub proof fn law_close_keeps_active<V, D>(tabs: Seq<Tab<V, D>>, active: int, idx: int)
    requires
        0 <= idx < tabs.len(),
        0 <= active < tabs.len(),
        idx != active,
    ensures
        0 <= active_after_close(active, idx, tabs.len() - 1) < tabs.len() - 1,
        tabs.remove(idx)[active_after_close(active, idx, tabs.len() - 1)] == tabs[active],
{
}

/// Closing the active tab activates a neighbour: the tab that followed it,
/// or the new last tab when it was the last one.
pub proof fn law_close_active_picks_neighbour<V, D>(tabs: Seq<Tab<V, D>>, active: int)
    requires
        0 <= active < tabs.len(),
        tabs.len() > 1,
    ensures
        ({
            let a = active_after_close(active, active, tabs.len() - 1);
            &&& 0 <= a < tabs.len() - 1
            &&& active < tabs.len() - 1 ==> tabs.remove(active)[a] == tabs[active + 1]
            &&& active == tabs.len() - 1 ==> tabs.remove(active)[a] == tabs[active - 1]
        }),
{
}

/// The view saved into a tab when leaving it survives switching on to
/// another tab, so it is there to restore on return.
pub proof fn law_saved_view_survives_switch<V, D>(
    tabs: Seq<Tab<V, D>>,
    a: int,
    b: int,
    mode: i32,
    page: i32,
    view: V,
    mode2: i32,
    page2: i32,
    view2: V,
)
    requires
        0 <= a < tabs.len(),
        0 <= b < tabs.len(),
        a != b,
    ensures
        ({
            let t = saved_view(saved_view(tabs, a, mode, page, view), b, mode2, page2, view2)[a];
            &&& t.display_mode == mode
            &&& t.current_page == page
            &&& t.view == view
            &&& t.id == tabs[a].id
            &&& t.path == tabs[a].path
        }),
{
}

} // verus!
