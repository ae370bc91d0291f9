//! The session: the tabs, which of them is shown, and what opening, splitting,
//! closing, moving and focusing do to them.
use vstd::prelude::*;
use crate::geometry::Rect;
use crate::geometry::dir_target;
use crate::geometry::layout_fits;
use crate::geometry::layout_tree;
use crate::geometry::rect_of;
use crate::render::GridGeom;
use crate::tab::Pane;
use crate::tab::Tab;
use crate::tab::find_pane;
use crate::tree::Node;
use crate::tree::leaf_ids;

verus! {

/// The tabs and the shown one among them.
#[derive(Debug)]
pub struct App {
    pub tabs: Vec<Tab>,
    /// Index of the shown tab.
    pub active: usize,
    /// The id that the next pane or divider gets.
    pub next_id: u64,
}

/// Ids stay below this.
pub const MAX_ID: u64 = 0x10_0000_0000_0000;

/// Tab `i` has the pane `id`.
pub open spec fn is_tab_of(tabs: Seq<Tab>, id: u64, i: int) -> bool {
    0 <= i < tabs.len() && tabs[i].has(id)
}

/// Some tab has the pane `id`.
pub open spec fn has_pane(tabs: Seq<Tab>, id: u64) -> bool {
    exists|i: int| #[trigger] is_tab_of(tabs, id, i)
}

/// Every tab is in order and no pane is in two; every id in use is below `next`,
/// and so is, by half, the number of nodes of a tree.
pub open spec fn tabs_wf(tabs: Seq<Tab>, next: u64) -> bool {
    &&& forall|i: int| 0 <= i < tabs.len() ==> (#[trigger] tabs[i]).wf()
    &&& forall|i: int| 0 <= i < tabs.len() ==> (#[trigger] tabs[i]).tree.size() <= 2 * next
    &&& forall|i: int, id: u64| #[trigger] is_tab_of(tabs, id, i) ==> id < next
    &&& forall|i: int, d: u64|
        0 <= i < tabs.len() && #[trigger] tabs[i].tree.divider_ids().contains(d) ==> d < next
    &&& forall|i: int, j: int, id: u64|
        #![trigger is_tab_of(tabs, id, i), is_tab_of(tabs, id, j)]
        is_tab_of(tabs, id, i) && is_tab_of(tabs, id, j) ==> i == j
}

impl App {
    /// The tabs are in order and the shown one is one of them.
    pub open spec fn wf(self) -> bool {
        &&& tabs_wf(self.tabs@, self.next_id)
        &&& 1 <= self.next_id <= MAX_ID
        &&& self.tabs@.len() > 0 ==> self.active < self.tabs@.len()
        &&& self.tabs@.len() == 0 ==> self.active == 0
    }

    /// There is an id left for a tab's first pane.
    pub open spec fn has_id(self) -> bool {
        self.next_id < MAX_ID
    }

    /// There are ids left for a split.
    pub open spec fn has_ids(self) -> bool {
        self.next_id + 2 <= MAX_ID
    }

    /// No tab yet.
    pub fn new() -> (a: App)
        ensures
            a.wf(),
            a.has_id(),
            a.has_ids(),
            a.tabs@ == Seq::<Tab>::empty(),
            a.active == 0,
            a.next_id == 1,
    {
        App { tabs: Vec::new(), active: 0, next_id: 1 }
    }

    /// Whether there is an id left for a tab's first pane.
    pub fn id_left(&self) -> (r: bool)
        ensures
            r == self.has_id(),
    {
        self.next_id < MAX_ID
    }

    /// Whether there are ids left for a split.
    pub fn ids_left(&self) -> (r: bool)
        requires
            self.wf(),
        ensures
            r == self.has_ids(),
    {
        self.next_id + 2 <= MAX_ID
    }

    /// The tab that has the pane `id`.
    pub fn tab_of(&self, id: u64) -> (r: Option<usize>)
        ensures
            r is Some <==> has_pane(self.tabs@, id),
            r is Some ==> is_tab_of(self.tabs@, id, r->Some_0 as int),
    {
        for i in 0..self.tabs.len()
            invariant
                forall|j: int| 0 <= j < i ==> !#[trigger] is_tab_of(self.tabs@, id, j),
        {
            if find_pane(&self.tabs[i].panes, id).is_some() {
                assert(is_tab_of(self.tabs@, id, i as int));
                return Some(i);
            }
        }
        None
    }
}

/// A tab that has the one pane `id`.
spec fn holds_only(t: Tab, id: u64) -> bool {
    forall|x: u64| #[trigger] t.has(x) <==> x == id
}

/// Open a tab with one pane whose shell is `pid`, and show it. The pane's
/// id.
pub fn spawn_tab(app: &mut App, pid: u32) -> (id: u64)
    requires
        old(app).wf(),
        old(app).has_id(),
    ensures
        final(app).wf(),
        id == old(app).next_id,
        !has_pane(old(app).tabs@, id),
        final(app).next_id == old(app).next_id + 1,
        final(app).tabs@ == old(app).tabs@.push(final(app).tabs@.last()),
        final(app).tabs@.last().tree == Node::Leaf(id),
        final(app).tabs@.last().panes@ == seq![(Pane { id, pid, title: None })],
        final(app).tabs@.last().active_pane == id,
        final(app).active == old(app).tabs@.len(),
{
    let id: u64 = app.next_id;
    app.next_id = id + 1;
    let tab: Tab = Tab::new(id, pid);
    let ghost before = app.tabs@;
    let ghost t = tab;
    app.active = app.tabs.len();
    app.tabs.push(tab);
    proof {
        let after = app.tabs@;
        assert(holds_only(t, id));
        assert forall|i: int, x: u64| #[trigger] is_tab_of(after, x, i) implies x < id + 1 && (i
            < before.len() ==> is_tab_of(before, x, i)) && (i == before.len() ==> x == id) by {
            if i < before.len() {
                assert(is_tab_of(before, x, i));
            }
        }
        assert forall|i: int, d: u64|
            0 <= i < after.len() && #[trigger] after[i].tree.divider_ids().contains(
                d,
            ) implies d < id + 1 by {
            if i < before.len() {
                assert(before[i].tree.divider_ids().contains(d));
            }
        }
        if has_pane(before, id) {
            let i = choose|i: int| #[trigger] is_tab_of(before, id, i);
            assert(is_tab_of(before, id, i));
        }
    }
    id
}

// ---- splitting ----

/// How many cells of `cell` pixels fit into `px` pixels; at least one.
pub open spec fn cells_in(px: int, cell: int) -> int {
    crate::render::at_least_1(px / cell)
}

fn count_cells(px: i32, cell: i32) -> (n: usize)
    requires
        cell > 0,
    ensures
        n == cells_in(px as int, cell as int),
        1 <= n <= 0x7fff_ffff,
{
    if px < cell {
        proof {
            assert(px / cell < 1) by (nonlinear_arith)
                requires
                    px < cell,
                    cell > 0,
            ;
        }
        return 1;
    }
    proof {
        assert(1 <= px / cell <= px) by (nonlinear_arith)
            requires
                px >= cell,
                cell > 0,
        ;
    }
    (px / cell) as usize
}

/// Columns and lines of a terminal of `w` by `h` pixels.
pub fn grid_size(w: i32, h: i32, g: &GridGeom) -> (r: (usize, usize))
    requires
        g.wf(),
    ensures
        r.0 == cells_in(w as int, g.cell_w as int),
        r.1 == cells_in(h as int, g.cell_h as int),
        1 <= r.0 <= 0x7fff_ffff,
        1 <= r.1 <= 0x7fff_ffff,
{
    (count_cells(w, g.cell_w), count_cells(h, g.cell_h))
}

/// Width and height of the pane that a split takes from a pane of `w` by `h`
/// pixels.
pub open spec fn half_of(vertical: bool, w: int, h: int) -> (int, int) {
    if vertical {
        (crate::geometry::half(w), h)
    } else {
        (w, crate::geometry::half(h))
    }
}

/// What is needed to open the shell of a split's new pane.
#[derive(Clone, Copy, Debug, PartialEq, Eq, Structural)]
pub struct SplitPlan {
    pub tab: usize,
    pub cols: usize,
    pub lines: usize,
    /// Shell of the pane that is split: the new one starts in its directory.
    pub pid: u32,
}

impl App {
    /// Every tab can be laid out in `w` by `h` pixels.
    pub open spec fn fits(self, w: i32, h: i32) -> bool {
        forall|i: int|
            0 <= i < self.tabs@.len() ==> crate::geometry::fits(
                (#[trigger] self.tabs@[i]).tree.depth(),
                (0, 0, w, h),
            )
    }

    /// Whether every tab can be laid out in `w` by `h` pixels.
    pub fn layout_fits(&self, w: i32, h: i32) -> (r: bool)
        requires
            self.wf(),
        ensures
            r == self.fits(w, h),
    {
        for i in 0..self.tabs.len()
            invariant
                self.wf(),
                forall|j: int|
                    0 <= j < i ==> crate::geometry::fits(
                        (#[trigger] self.tabs@[j]).tree.depth(),
                        (0, 0, w, h),
                    ),
        {
            assert(self.tabs@[i as int].tree.size() <= 2 * self.next_id);
            if !layout_fits(&self.tabs[i].tree, 0, 0, w, h) {
                return false;
            }
        }
        true
    }

    /// Rectangles of the panes of a tab in `w` by `h` pixels, in visual order.
    pub fn layout_tab(&self, tab: usize, w: i32, h: i32) -> (v: Vec<(u64, Rect)>)
        requires
            self.fits(w, h),
            tab < self.tabs@.len(),
        ensures
            v@ == self.tabs@[tab as int].tree.layout((0, 0, w, h)),
    {
        let mut v: Vec<(u64, Rect)> = Vec::new();
        layout_tree(&self.tabs[tab].tree, 0, 0, w, h, &mut v);
        assert(v@ =~= self.tabs@[tab as int].tree.layout((0, 0, w, h)));
        v
    }

    /// Whether a pane of tab `i` has room for a split: half of it holds a cell.
    pub open spec fn splittable(
        self,
        i: int,
        id: u64,
        vertical: bool,
        g: GridGeom,
        w: i32,
        h: i32,
    ) -> bool {
        let r = self.tabs@[i].tree.rect_of(id, (0, 0, w, h));
        r is Some && ({
            let (nw, nh) = half_of(vertical, r->Some_0.2 as int, r->Some_0.3 as int);
            g.cell_w <= nw && g.cell_h <= nh
        })
    }

    /// The plan for splitting the pane `id`, where some tab has it and half of
    /// it holds a cell.
    pub fn plan_split(&self, id: u64, vertical: bool, g: &GridGeom, w: i32, h: i32) -> (r: Option<
        SplitPlan,
    >)
        requires
            self.wf(),
            self.fits(w, h),
            g.wf(),
        ensures
            r is Some <==> exists|i: int| #[trigger]
                is_tab_of(self.tabs@, id, i) && self.splittable(i, id, vertical, *g, w, h),
            r matches Some(plan) ==> {
                let rect = self.tabs@[plan.tab as int].tree.rect_of(
                    id,
                    (0, 0, w, h),
                )->Some_0;
                let (nw, nh) = half_of(vertical, rect.2 as int, rect.3 as int);
                &&& is_tab_of(self.tabs@, id, plan.tab as int)
                &&& self.splittable(plan.tab as int, id, vertical, *g, w, h)
                &&& plan.cols == cells_in(nw, g.cell_w as int)
                &&& plan.lines == cells_in(nh, g.cell_h as int)
                &&& exists|p: Pane| #[trigger]
                    self.tabs@[plan.tab as int].panes@.contains(p) && p.id == id && p.pid
                        == plan.pid
            },
    {
        let tab: usize = match self.tab_of(id) {
            Some(i) => i,
            None => return None,
        };
        let rect: Rect = match rect_of(&self.tabs[tab].tree, id, 0, 0, w, h) {
            Some(r) => r,
            None => return None,
        };
        let (nw, nh): (i32, i32) = if vertical {
            (rect.2 / 2, rect.3)
        } else {
            (rect.2, rect.3 / 2)
        };
        if nw < g.cell_w || nh < g.cell_h {
            return None;
        }
        let (cols, lines): (usize, usize) = grid_size(nw, nh, g);
        let pid: u32 = self.tabs[tab].pane(id).pid;
        Some(SplitPlan { tab, cols, lines, pid })
    }
}

// ---- closing ----

/// What becomes of a session when a shell is gone.
#[derive(Clone, Copy, Debug, PartialEq, Eq, Structural)]
pub enum Exit {
    /// No tab had the pane.
    Unknown,
    /// The pane was a tab's last one: the tab is gone. With the last tab the
    /// session ends.
    TabClosed { index: usize },
    /// The pane is gone from a tab; the pane that now has the focus, where the
    /// closed one had it.
    PaneClosed { tab: usize, focus: Option<u64> },
}

/// Split the pane `id` with a new one whose shell is `pid`. The new pane's
/// id, where some tab has `id`.
pub fn split_pane(app: &mut App, id: u64, vertical: bool, pid: u32) -> (r: Option<u64>)
    requires
        old(app).wf(),
        old(app).has_ids(),
    ensures
        final(app).wf(),
        final(app).active == old(app).active,
        r is Some <==> has_pane(old(app).tabs@, id),
        r is None ==> *final(app) == *old(app),
        r matches Some(new) ==> {
            &&& new == old(app).next_id
            &&& !has_pane(old(app).tabs@, new)
            &&& final(app).next_id == old(app).next_id + 2
            &&& final(app).tabs@.len() == old(app).tabs@.len()
            &&& forall|i: int|
                0 <= i < old(app).tabs@.len() ==> if old(app).tabs@[i].has(id) {
                    crate::tab::is_split_tab(
                        old(app).tabs@[i],
                        #[trigger] final(app).tabs@[i],
                        id,
                        vertical,
                        Pane { id: new, pid, title: None },
                        (new + 1) as u64,
                    )
                } else {
                    final(app).tabs@[i] == old(app).tabs@[i]
                }
        },
{
    let tab: usize = match app.tab_of(id) {
        Some(i) => i,
        None => return None,
    };
    let new: u64 = app.next_id;
    let divider: u64 = new + 1;
    let ghost before = app.tabs@;
    proof {
        if before[tab as int].has(new) {
            assert(is_tab_of(before, new, tab as int));
        }
        if has_pane(before, new) {
            let i = choose|i: int| #[trigger] is_tab_of(before, new, i);
            assert(is_tab_of(before, new, i));
        }
    }
    app.next_id = new + 2;
    app.tabs[tab].split(id, vertical, new, divider, pid);
    proof {
        let after = app.tabs@;
        let k = tab as int;
        assert forall|i: int| 0 <= i < before.len() implies if before[i].has(id) {
            i == k
        } else {
            #[trigger] after[i] == before[i]
        } by {
            if before[i].has(id) {
                assert(is_tab_of(before, id, i));
                assert(is_tab_of(before, id, k));
            }
        }
        assert forall|i: int, x: u64| #[trigger] is_tab_of(after, x, i) implies x < new + 2 && ((
        i == k && x == new) || (is_tab_of(before, x, i) && x < new)) by {
            if i == k {
                assert(after[k].has(x) <==> before[k].has(x) || x == new);
            }
            if !(i == k && x == new) {
                assert(is_tab_of(before, x, i));
            }
        }
        assert forall|i: int, d: u64|
            0 <= i < after.len() && #[trigger] after[i].tree.divider_ids().contains(
                d,
            ) implies d < new + 2 by {
            if i == k {
                assert(after[k].tree.divider_ids().contains(d)
                    <==> before[k].tree.divider_ids().contains(d) || d == divider);
            }
            if d != divider {
                assert(before[i].tree.divider_ids().contains(d));
            }
        }
    }
    Some(new)
}

/// The pane `id` was the last one of the tab at `index`: the tab is gone, and
/// the tab at the shown one's place, or the last, is shown.
pub open spec fn is_tab_closed(before: App, after: App, id: u64, index: int) -> bool {
    &&& is_tab_of(before.tabs@, id, index)
    &&& before.tabs@[index].panes@.len() == 1
    &&& after.tabs@ == before.tabs@.remove(index)
    &&& after.active == if before.active < after.tabs@.len() {
        before.active as int
    } else {
        crate::geometry::at_least_0(after.tabs@.len() - 1)
    }
}

/// The pane `id` is gone from a tab that has others; the pane that takes over
/// the focus, where `id` had it.
pub open spec fn is_pane_closed(before: App, after: App, id: u64, tab: int, focus: Option<u64>) -> bool {
    let (t, u) = (before.tabs@[tab], after.tabs@[tab]);
    &&& is_tab_of(before.tabs@, id, tab)
    &&& t.panes@.len() > 1
    &&& crate::tab::is_closed_tab(t, u, id)
    &&& after.tabs@ == before.tabs@.update(tab, u)
    &&& after.active == before.active
    &&& focus == if t.active_pane == id {
        Some(u.active_pane)
    } else {
        None
    }
}

impl App {
    /// Remove the pane of a shell that is gone.
    pub fn pane_exited(&mut self, id: u64) -> (r: Exit)
        requires
            old(self).wf(),
        ensures
            final(self).wf(),
            final(self).next_id == old(self).next_id,
            r is Unknown <==> !has_pane(old(self).tabs@, id),
            !has_pane(final(self).tabs@, id),
            match r {
                Exit::Unknown => *final(self) == *old(self),
                Exit::TabClosed { index } => is_tab_closed(
                    *old(self),
                    *final(self),
                    id,
                    index as int,
                ),
                Exit::PaneClosed { tab, focus } => is_pane_closed(
                    *old(self),
                    *final(self),
                    id,
                    tab as int,
                    focus,
                ),
            },
    {
        let tab: usize = match self.tab_of(id) {
            Some(i) => i,
            None => return Exit::Unknown,
        };
        let ghost before = self.tabs@;
        let ghost k = tab as int;
        if self.tabs[tab].panes.len() == 1 {
            proof {
                let p = crate::tab::pane_ids(before[k].panes@);
                assert(p.len() == 1 && p[p.index_of(id)] == id);
            }
            self.tabs.remove(tab);
            if self.active >= self.tabs.len() {
                self.active = if self.tabs.len() == 0 {
                    0
                } else {
                    self.tabs.len() - 1
                };
            }
            proof {
                lemma_remove_tab(before, k, self.next_id);
                if has_pane(self.tabs@, id) {
                    let i = choose|i: int| #[trigger] is_tab_of(self.tabs@, id, i);
                    let j = if i < k {
                        i
                    } else {
                        i + 1
                    };
                    assert(is_tab_of(before, id, j));
                    assert(is_tab_of(before, id, k));
                }
            }
            return Exit::TabClosed { index: tab };
        }
        proof {
            crate::tab::lemma_tree_of_one(before[k]);
        }
        let focus: Option<u64> = self.tabs[tab].close(id);
        proof {
            let after = self.tabs@;
            assert forall|i: int, x: u64| #[trigger] is_tab_of(after, x, i) implies is_tab_of(
                before,
                x,
                i,
            ) && x != id by {
                if i == k {
                    assert(after[k].has(x) <==> before[k].has(x) && x != id);
                }
                assert(is_tab_of(before, x, i));
                if x == id {
                    assert(is_tab_of(before, id, k));
                }
            }
            assert forall|i: int, d: u64|
                0 <= i < after.len() && #[trigger] after[i].tree.divider_ids().contains(
                    d,
                ) implies d < self.next_id by {
                assert(before[i].tree.divider_ids().contains(d));
            }
        }
        Exit::PaneClosed { tab, focus }
    }

    /// The shells to hang up on when the tab bar asks to close a tab: none
    /// where there is no such tab.
    pub fn tab_close_requested(&self, i: i32) -> (v: Vec<u32>)
        ensures
            v@ == if 0 <= i < self.tabs@.len() {
                known_pids(self.tabs@[i as int].panes@)
            } else {
                seq![]
            },
    {
        if i >= 0 && (i as usize) < self.tabs.len() {
            close_tab(self, i as usize)
        } else {
            Vec::new()
        }
    }

    /// The shells to hang up on for closing the tab of the pane `id`.
    pub fn close_tab_of(&self, id: u64) -> (v: Vec<u32>)
        requires
            self.wf(),
        ensures
            forall|i: int| #[trigger]
                is_tab_of(self.tabs@, id, i) ==> v@ == known_pids(self.tabs@[i].panes@),
            !has_pane(self.tabs@, id) ==> v@ == Seq::<u32>::empty(),
    {
        match self.tab_of(id) {
            Some(i) => close_tab(self, i),
            None => Vec::new(),
        }
    }
}

/// The shells to hang up on for closing tab `i`: those whose process is
/// known. Each pane goes once its shell is gone, the tab with the last one.
pub fn close_tab(app: &App, i: usize) -> (v: Vec<u32>)
    requires
        i < app.tabs@.len(),
    ensures
        v@ == known_pids(app.tabs@[i as int].panes@),
{
    let panes: &Vec<Pane> = &app.tabs[i].panes;
    let mut v: Vec<u32> = Vec::new();
    for j in 0..panes.len()
        invariant
            panes@ == app.tabs@[i as int].panes@,
            v@ == known_pids(panes@.take(j as int)),
    {
        assert(panes@.take(j as int + 1).drop_last() =~= panes@.take(j as int));
        if panes[j].pid != 0 {
            v.push(panes[j].pid);
        }
    }
    assert(panes@.take(panes@.len() as int) =~= panes@);
    v
}

/// The processes of some panes, those that are known.
pub open spec fn known_pids(panes: Seq<Pane>) -> Seq<u32>
    decreases panes.len(),
{
    if panes.len() == 0 {
        seq![]
    } else if panes.last().pid != 0 {
        known_pids(panes.drop_last()).push(panes.last().pid)
    } else {
        known_pids(panes.drop_last())
    }
}

proof fn lemma_remove_tab(tabs: Seq<Tab>, k: int, next: u64)
    requires
        tabs_wf(tabs, next),
        0 <= k < tabs.len(),
    ensures
        tabs_wf(tabs.remove(k), next),
{
    let r = tabs.remove(k);
    assert forall|i: int| 0 <= i < r.len() implies #[trigger] r[i] == tabs[if i < k {
        i
    } else {
        i + 1
    }] by {}
    assert forall|i: int, x: u64| #[trigger] is_tab_of(r, x, i) implies x < next && is_tab_of(
        tabs,
        x,
        if i < k {
            i
        } else {
            i + 1
        },
    ) by {
        assert(is_tab_of(
            tabs,
            x,
            if i < k {
                i
            } else {
                i + 1
            },
        ));
    }
    assert forall|i: int, d: u64|
        0 <= i < r.len() && #[trigger] r[i].tree.divider_ids().contains(d) implies d < next by {
        let j = if i < k {
            i
        } else {
            i + 1
        };
        assert(tabs[j].tree.divider_ids().contains(d));
    }
}

// ---- which tab is shown ----

/// The index after `i` of `n`; after the last comes the first.
pub open spec fn following(i: int, n: int) -> int {
    if i + 1 == n {
        0
    } else {
        i + 1
    }
}

/// The tab at `from` is at `to` now; the tab that was shown still is.
pub open spec fn is_tab_moved(before: App, after: App, from: int, to: int) -> bool {
    &&& after.tabs@ == before.tabs@.remove(from).insert(to, before.tabs@[from])
    &&& after.tabs@[after.active as int] == before.tabs@[before.active as int]
}

/// The index before `i` of `n`; before the first comes the last.
pub open spec fn preceding(i: int, n: int) -> int {
    if i == 0 {
        n - 1
    } else {
        i - 1
    }
}

impl App {
    /// The tab after the shown one; after the last comes the first.
    pub fn next_tab(&self) -> (r: Option<usize>)
        requires
            self.wf(),
        ensures
            r is Some <==> self.tabs@.len() > 0,
            r is Some ==> r->Some_0 == following(self.active as int, self.tabs@.len() as int),
    {
        if self.tabs.len() == 0 {
            None
        } else if self.active + 1 == self.tabs.len() {
            Some(0)
        } else {
            Some(self.active + 1)
        }
    }

    /// The tab before the shown one; before the first comes the last.
    pub fn prev_tab(&self) -> (r: Option<usize>)
        requires
            self.wf(),
        ensures
            r is Some <==> self.tabs@.len() > 0,
            r is Some ==> r->Some_0 == preceding(self.active as int, self.tabs@.len() as int),
    {
        if self.tabs.len() == 0 {
            None
        } else if self.active == 0 {
            Some(self.tabs.len() - 1)
        } else {
            Some(self.active - 1)
        }
    }

    /// The tab bar shows another tab: it is now the shown one, and its active
    /// pane gets the focus. Nothing where there is no such tab.
    pub fn current_changed(&mut self, i: i32) -> (r: Option<u64>)
        requires
            old(self).wf(),
        ensures
            final(self).wf(),
            r is Some <==> 0 <= i < old(self).tabs@.len(),
            r is None ==> *final(self) == *old(self),
            r is Some ==> {
                &&& final(self).tabs@ == old(self).tabs@
                &&& final(self).next_id == old(self).next_id
                &&& final(self).active == i
                &&& r->Some_0 == old(self).tabs@[i as int].active_pane
            },
    {
        if i < 0 || i as usize >= self.tabs.len() {
            return None;
        }
        self.active = i as usize;
        Some(self.tabs[self.active].active_pane)
    }

    /// A tab was dragged from one place to another: the tabs follow, the shown
    /// tab stays the shown one, and its active pane gets the focus. Nothing
    /// where there is no such place or nothing moved.
    pub fn move_tab(&mut self, from: i32, to: i32) -> (r: Option<u64>)
        requires
            old(self).wf(),
        ensures
            final(self).wf(),
            final(self).next_id == old(self).next_id,
            r is Some <==> from != to && 0 <= from < old(self).tabs@.len() && 0 <= to < old(
                self,
            ).tabs@.len(),
            r is None ==> *final(self) == *old(self),
            r is Some ==> {
                &&& is_tab_moved(*old(self), *final(self), from as int, to as int)
                &&& final(self).tabs@ == old(self).tabs@.remove(from as int).insert(
                    to as int,
                    old(self).tabs@[from as int],
                )
                &&& final(self).tabs@[final(self).active as int] == old(self).tabs@[old(
                    self,
                ).active as int]
                &&& r->Some_0 == old(self).tabs@[old(self).active as int].active_pane
            },
    {
        let n: usize = self.tabs.len();
        if from < 0 || to < 0 || from as usize >= n || to as usize >= n || from == to {
            return None;
        }
        let (f, t): (usize, usize) = (from as usize, to as usize);
        let ghost before = self.tabs@;
        let tab: Tab = self.tabs.remove(f);
        self.tabs.insert(t, tab);
        let a: usize = self.active;
        self.active = if a == f {
            t
        } else if f < a && t >= a {
            a - 1
        } else if f > a && t <= a {
            a + 1
        } else {
            a
        };
        proof {
            lemma_move_tab(before, f as int, t as int, self.next_id);
        }
        Some(self.tabs[self.active].active_pane)
    }
}

/// The tab that `i` stands for when counting goes round; none where there
/// is no tab.
pub fn switch_tab(app: &App, i: usize) -> (r: Option<usize>)
    ensures
        r is Some <==> app.tabs@.len() > 0,
        r is Some ==> r->Some_0 == i as int % app.tabs@.len() as int && r->Some_0 < app.tabs@.len(),
{
    if app.tabs.len() == 0 {
        None
    } else {
        Some(i % app.tabs.len())
    }
}

/// Where the tab at `i` comes from when one moves.
spec fn moved_from(f: int, t: int, i: int) -> int {
    if i == t {
        f
    } else if f < t {
        if f <= i < t {
            i + 1
        } else {
            i
        }
    } else {
        if t < i <= f {
            i - 1
        } else {
            i
        }
    }
}

proof fn lemma_move_tab(tabs: Seq<Tab>, f: int, t: int, next: u64)
    requires
        tabs_wf(tabs, next),
        0 <= f < tabs.len(),
        0 <= t < tabs.len(),
        f != t,
    ensures
        tabs_wf(tabs.remove(f).insert(t, tabs[f]), next),
{
    let r = tabs.remove(f).insert(t, tabs[f]);
    assert(r.len() == tabs.len());
    assert forall|i: int| 0 <= i < r.len() implies #[trigger] r[i] == tabs[moved_from(f, t, i)] by {
    }
    assert forall|i: int, x: u64| #[trigger] is_tab_of(r, x, i) implies x < next && is_tab_of(
        tabs,
        x,
        moved_from(f, t, i),
    ) by {
        assert(is_tab_of(tabs, x, moved_from(f, t, i)));
    }
    assert forall|i: int, d: u64|
        0 <= i < r.len() && #[trigger] r[i].tree.divider_ids().contains(d) implies d < next by {
        assert(tabs[moved_from(f, t, i)].tree.divider_ids().contains(d));
    }
}

// ---- which pane has the focus ----

/// The position `step` places on from `k` when `n` places go round.
fn stepped(k: usize, step: i32, n: usize) -> (r: usize)
    requires
        k < n,
    ensures
        r == (k + step) % (n as int),
        r < n,
{
    let s: i128 = k as i128 + step as i128;
    let m: i128 = n as i128;
    if s >= 0 {
        (s % m) as usize
    } else {
        // Euclidean remainder of a negative number.
        let back: i128 = (-s) % m;
        proof {
            let (x, d) = (s as int, m as int);
            let q = (-x) / d;
            vstd::arithmetic::div_mod::lemma_fundamental_div_mod(-x, d);
            if back == 0 {
                assert(x == (-q) * d + 0) by (nonlinear_arith)
                    requires
                        -x == d * q,
                ;
                vstd::arithmetic::div_mod::lemma_fundamental_div_mod_converse(x, d, -q, 0);
            } else {
                assert(x == (-q - 1) * d + (d - back)) by (nonlinear_arith)
                    requires
                        -x == d * q + back,
                ;
                vstd::arithmetic::div_mod::lemma_fundamental_div_mod_converse(
                    x,
                    d,
                    -q - 1,
                    d - back,
                );
            }
        }
        if back == 0 {
            0
        } else {
            (m - back) as usize
        }
    }
}

fn index_in(v: &Vec<u64>, x: u64) -> (r: usize)
    requires
        v@.contains(x),
        v@.no_duplicates(),
    ensures
        r < v@.len(),
        r == v@.index_of(x),
        v@[r as int] == x,
{
    let mut i: usize = 0;
    while i < v.len()
        invariant
            v@.contains(x),
            v@.no_duplicates(),
            i <= v@.len(),
            forall|j: int| 0 <= j < i ==> v@[j] != x,
        decreases v.len() - i,
    {
        if v[i] == x {
            proof {
                crate::tree::lemma_index_is(v@, i as int);
            }
            return i;
        }
        i += 1;
    }
    vstd::pervasive::unreached()
}

/// The pane of a tab nearest to its active pane in direction (dx, dy), or the
/// lack of one.
pub open spec fn is_neighbour(t: Tab, w: i32, h: i32, dx: int, dy: int, r: Option<u64>) -> bool {
    let rects = t.tree.layout((0, 0, w, h));
    let from = t.tree.rect_of(t.active_pane, (0, 0, w, h))->Some_0;
    match r {
        Some(id) => exists|i: int| #[trigger]
            crate::geometry::is_nearest_candidate(rects, t.active_pane, from, dx, dy, i) && id
                == rects[i].0,
        None => forall|i: int|
            !#[trigger] crate::geometry::is_candidate(rects, t.active_pane, from, dx, dy, i),
    }
}

impl App {
    /// The pane `id` got the focus: it is its tab's active pane from now on.
    /// Its tab, all of whose panes are to be painted anew.
    pub fn focus_gained(&mut self, id: u64) -> (r: Option<usize>)
        requires
            old(self).wf(),
        ensures
            final(self).wf(),
            final(self).active == old(self).active,
            final(self).next_id == old(self).next_id,
            r is Some <==> has_pane(old(self).tabs@, id),
            r is None ==> *final(self) == *old(self),
            r matches Some(i) ==> {
                let t = final(self).tabs@[i as int];
                &&& is_tab_of(old(self).tabs@, id, i as int)
                &&& final(self).tabs@ == old(self).tabs@.update(i as int, t)
                &&& t.active_pane == id
                &&& t.tree == old(self).tabs@[i as int].tree
                &&& t.panes@ == old(self).tabs@[i as int].panes@
            },
    {
        let i: usize = match self.tab_of(id) {
            Some(i) => i,
            None => return None,
        };
        let ghost before = self.tabs@;
        self.tabs[i].active_pane = id;
        proof {
            lemma_same_panes(before, self.tabs@, i as int, self.next_id);
        }
        Some(i)
    }

    /// Whether the pane `id` takes back a focus that it lost: no menu is open,
    /// its tab is shown and it is still the tab's active pane.
    pub fn takes_focus_back(&self, id: u64, popup_open: bool) -> (r: bool)
        requires
            self.wf(),
        ensures
            r == (!popup_open && self.claims_focus(id)),
    {
        if popup_open {
            return false;
        }
        match self.tab_of(id) {
            Some(i) => {
                proof {
                    assert(is_tab_of(self.tabs@, id, i as int));
                    if is_tab_of(self.tabs@, id, self.active as int) {
                        assert(i == self.active);
                    }
                }
                i == self.active && self.tabs[i].active_pane == id
            },
            None => {
                assert(!is_tab_of(self.tabs@, id, self.active as int));
                false
            },
        }
    }

    /// The pane `id` is the active pane of the shown tab.
    pub open spec fn claims_focus(self, id: u64) -> bool {
        is_tab_of(self.tabs@, id, self.active as int) && self.tabs@[self.active as int].active_pane
            == id
    }

    /// The pane `id` is the active pane of its tab.
    pub open spec fn is_focused(self, id: u64) -> bool {
        exists|i: int| #[trigger] is_tab_of(self.tabs@, id, i) && self.tabs@[i].active_pane == id
    }

    /// Whether the pane `id` is the active pane of its tab.
    pub fn focused(&self, id: u64) -> (r: bool)
        requires
            self.wf(),
        ensures
            r == self.is_focused(id),
    {
        match self.tab_of(id) {
            Some(i) => {
                let r: bool = self.tabs[i].active_pane == id;
                proof {
                    assert(is_tab_of(self.tabs@, id, i as int));
                }
                r
            },
            None => false,
        }
    }
}

/// The pane of the shown tab nearest to its active one in direction
/// (dx, dy); none where no pane lies that way.
pub fn focus_pane_dir(app: &App, dx: i32, dy: i32, w: i32, h: i32) -> (r: Option<u64>)
    requires
        app.wf(),
        app.tabs@.len() > 0,
        app.fits(w, h),
    ensures
        is_neighbour(app.tabs@[app.active as int], w, h, dx as int, dy as int, r),
{
    let rects: Vec<(u64, Rect)> = app.layout_tab(app.active, w, h);
    let t: &Tab = &app.tabs[app.active];
    let r: Option<u64> = dir_target(&rects, t.active_pane, dx, dy);
    proof {
        let ids = t.tree.leaves();
        let box_ = (0i32, 0i32, w, h);
        assert(t.wf());
        assert(t.has(t.active_pane));
        let k = ids.index_of(t.active_pane);
        assert(0 <= k < ids.len() && ids[k] == t.active_pane);
        crate::geometry_laws::law_layout_has_the_panes(t.tree, box_);
        crate::geometry_laws::law_rect_is_layout(t.tree, box_, k);
        let from = t.tree.rect_of(t.active_pane, box_)->Some_0;
        assert(crate::geometry::first_entry(rects@, t.active_pane, k)) by {
            assert forall|j: int| 0 <= j < k implies (#[trigger] rects@[j]).0
                != t.active_pane by {
                assert(rects@[j].0 == ids[j]);
            }
            assert(rects@[k].0 == ids[k]);
        }
        match r {
            Some(id) => {
                let (c, i) = choose|c: int, i: int|
                    #![trigger crate::geometry::first_entry(rects@, t.active_pane, c), rects@[i]]
                    crate::geometry::first_entry(rects@, t.active_pane, c)
                        && crate::geometry::is_nearest_candidate(
                        rects@,
                        t.active_pane,
                        rects@[c].1,
                        dx as int,
                        dy as int,
                        i,
                    ) && id == rects@[i].0;
                assert(c == k) by {
                    if c < k {
                        assert(rects@[c].0 != t.active_pane);
                    } else if k < c {
                        assert(rects@[k].0 != t.active_pane);
                    }
                }
                assert(crate::geometry::is_nearest_candidate(
                    rects@,
                    t.active_pane,
                    from,
                    dx as int,
                    dy as int,
                    i,
                ));
            },
            None => {
                assert forall|i: int| !#[trigger]
                    crate::geometry::is_candidate(
                        rects@,
                        t.active_pane,
                        from,
                        dx as int,
                        dy as int,
                        i,
                    ) by {
                    let probe = rects@[i];
                }
            },
        }
    }
    r
}

/// The pane `step` places on from the shown tab's active pane in visual
/// order, going round; none where the tab has no other pane.
pub fn cycle_pane(app: &App, step: i32) -> (r: Option<u64>)
    requires
        app.wf(),
        app.tabs@.len() > 0,
    ensures
        ({
            let t = app.tabs@[app.active as int];
            let ids = t.tree.leaves();
            &&& r is Some <==> ids.len() >= 2
            &&& r is Some ==> r->Some_0 == ids[(ids.index_of(t.active_pane) + step) % (
            ids.len() as int)]
        }),
{
    let t: &Tab = &app.tabs[app.active];
    let mut ids: Vec<u64> = Vec::new();
    leaf_ids(&t.tree, &mut ids);
    assert(ids@ =~= t.tree.leaves());
    if ids.len() < 2 {
        return None;
    }
    proof {
        assert(t.wf());
        assert(t.has(t.active_pane));
    }
    let k: usize = index_in(&ids, t.active_pane);
    let next: usize = stepped(k, step, ids.len());
    Some(ids[next])
}

/// A tab whose tree and panes are what they were, but for titles and which is
/// active, leaves the tabs in order.
pub proof fn lemma_same_panes(before: Seq<Tab>, after: Seq<Tab>, k: int, next: u64)
    requires
        tabs_wf(before, next),
        0 <= k < before.len(),
        after == before.update(k, after[k]),
        after[k].tree.leaves() == before[k].tree.leaves(),
        after[k].tree.divider_ids() == before[k].tree.divider_ids(),
        after[k].tree.filled(),
        after[k].tree.shares_ok(),
        after[k].tree.size() == before[k].tree.size(),
        crate::tab::pane_ids(after[k].panes@) == crate::tab::pane_ids(before[k].panes@),
        after[k].has(after[k].active_pane),
    ensures
        tabs_wf(after, next),
{
    assert forall|id: u64|
        #![trigger after[k].tree.leaves().contains(id)]
        #![trigger after[k].has(id)]
        after[k].tree.leaves().contains(id) <==> after[k].has(id) by {
        assert(before[k].tree.leaves().contains(id) <==> before[k].has(id));
    }
    assert(before[k].wf());
    assert(after[k].wf());
    assert forall|i: int, x: u64| #[trigger] is_tab_of(after, x, i) implies x < next && is_tab_of(
        before,
        x,
        i,
    ) by {
        assert(is_tab_of(before, x, i));
    }
    assert forall|i: int, d: u64|
        0 <= i < after.len() && #[trigger] after[i].tree.divider_ids().contains(d) implies d
        < next by {
        assert(before[i].tree.divider_ids().contains(d));
    }
}

// ---- titles ----

/// The title of the pane `id` among some panes.
pub open spec fn title_in(panes: Seq<Pane>, id: u64) -> Option<String> {
    panes[crate::tab::pane_ids(panes).index_of(id)].title
}

/// The pane `id` of tab `i` has a new title; nothing else has changed.
pub open spec fn is_titled(before: App, after: App, i: int, id: u64, title: String) -> bool {
    let (t, u) = (before.tabs@[i], after.tabs@[i]);
    let k = crate::tab::pane_ids(t.panes@).index_of(id);
    &&& after.tabs@ == before.tabs@.update(i, u)
    &&& u.tree == t.tree
    &&& u.active_pane == t.active_pane
    &&& u.panes@ == t.panes@.update(k, Pane { id, pid: t.panes@[k].pid, title: Some(title) })
}

impl App {
    /// The shell of the pane `id` has set its title. The tab whose label
    /// changes with it, which is the pane's tab where the pane is active. A
    /// pane that is not active keeps its title for when it is.
    pub fn set_title(&mut self, id: u64, title: String) -> (r: Option<usize>)
        requires
            old(self).wf(),
        ensures
            final(self).wf(),
            final(self).active == old(self).active,
            final(self).next_id == old(self).next_id,
            r is Some <==> old(self).is_focused(id),
            r is Some ==> is_tab_of(old(self).tabs@, id, r->Some_0 as int),
            !has_pane(old(self).tabs@, id) ==> *final(self) == *old(self),
            forall|i: int| #[trigger]
                is_tab_of(old(self).tabs@, id, i) ==> is_titled(
                    *old(self),
                    *final(self),
                    i,
                    id,
                    title,
                ),
    {
        let i: usize = match self.tab_of(id) {
            Some(i) => i,
            None => {
                proof {
                    assert forall|i: int| !#[trigger] is_tab_of(self.tabs@, id, i) by {}
                }
                return None;
            },
        };
        let ghost before = self.tabs@;
        proof {
            assert(is_tab_of(before, id, i as int));
            assert(before[i as int].wf());
        }
        let k: usize = match find_pane(&self.tabs[i].panes, id) {
            Some(k) => k,
            None => vstd::pervasive::unreached(),
        };
        let ghost ids = crate::tab::pane_ids(before[i as int].panes@);
        proof {
            assert(ids[k as int] == id);
            crate::tree::lemma_index_is(ids, k as int);
        }
        self.tabs[i].panes[k].title = Some(title);
        proof {
            assert(crate::tab::pane_ids(self.tabs@[i as int].panes@) =~= ids);
            lemma_same_panes(before, self.tabs@, i as int, self.next_id);
            assert forall|j: int| #[trigger] is_tab_of(before, id, j) implies j == i by {
                assert(is_tab_of(before, id, i as int));
            }
        }
        if self.tabs[i].active_pane == id {
            assert(old(self).is_focused(id));
            Some(i)
        } else {
            None
        }
    }

    /// The label of a tab: the title of its active pane, or the shell's name
    /// where that has set none.
    pub fn tab_label(&self, i: usize, shell: &str) -> (s: String)
        requires
            self.wf(),
            i < self.tabs@.len(),
        ensures
            s@ == match title_in(
                self.tabs@[i as int].panes@,
                self.tabs@[i as int].active_pane,
            ) {
                Some(t) => t@,
                None => shell@,
            },
    {
        let t: &Tab = &self.tabs[i];
        proof {
            assert(t.wf());
            assert(t.has(t.active_pane));
        }
        let k: usize = match find_pane(&t.panes, t.active_pane) {
            Some(k) => k,
            None => vstd::pervasive::unreached(),
        };
        proof {
            let ids = crate::tab::pane_ids(t.panes@);
            assert(ids[k as int] == t.active_pane);
            crate::tree::lemma_index_is(ids, k as int);
        }
        match &t.panes[k].title {
            Some(title) => title.as_str().to_owned(),
            None => shell.to_owned(),
        }
    }
}

} // verus!
