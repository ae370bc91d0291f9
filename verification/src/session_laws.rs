//! What holds of a session across several operations.
use vstd::prelude::*;
use crate::ratio::Ratio;
use crate::session::App;
use crate::session::Exit;
use crate::tab::Pane;
use crate::tab::Tab;
use crate::tree::Node;

verus! {

/// Splitting leaves every strip along the split's axis balanced, so that its
/// panes share the space equally.
pub proof fn law_split_balances(
    before: Tab,
    after: Tab,
    id: u64,
    vertical: bool,
    new: Pane,
    divider: u64,
)
    requires
        crate::tab::is_split_tab(before, after, id, vertical, new, divider),
    ensures
        after.tree.equalized(vertical, after.tree),
{
    let sub = choose|sub: Node| #[trigger]
        crate::tab::is_half_split(sub, divider, vertical, id, new.id) && before.tree.replaced(
            id,
            sub,
        ).equalized(vertical, after.tree);
    crate::tree_laws::law_rebalanced_is_balanced(
        before.tree.replaced(id, sub),
        vertical,
        after.tree,
    );
}

/// Closing a pane leaves every strip along the axis of its split balanced.
pub proof fn law_close_balances(before: Tab, after: Tab, id: u64)
    requires
        crate::tab::is_closed_tab(before, after, id),
    ensures
        after.tree.equalized(before.tree.axis_of(id)->Some_0, after.tree),
{
    crate::tree_laws::law_rebalanced_is_balanced(
        before.tree.removed(id)->Some_0,
        before.tree.axis_of(id)->Some_0,
        after.tree,
    );
}

/// Closing the pane that a split opened undoes the split: the same panes are
/// left in the same tree, balanced along that axis, and the pane that was split
/// has the focus.
pub proof fn law_close_undoes_split(
    before: Tab,
    split: Tab,
    closed: Tab,
    id: u64,
    vertical: bool,
    new: Pane,
    divider: u64,
)
    requires
        before.wf(),
        before.has(id),
        !before.has(new.id),
        crate::tab::is_split_tab(before, split, id, vertical, new, divider),
        crate::tab::is_closed_tab(split, closed, new.id),
    ensures
        closed.panes@ == before.panes@,
        closed.active_pane == id,
        before.tree.equalized(vertical, closed.tree),
        closed.tree.leaves() == before.tree.leaves(),
        closed.tree.divider_ids() == before.tree.divider_ids(),
{
    let sub = choose|sub: Node| #[trigger]
        crate::tab::is_half_split(sub, divider, vertical, id, new.id) && before.tree.replaced(
            id,
            sub,
        ).equalized(vertical, split.tree);
    let mid = before.tree.replaced(id, sub);
    assert(before.tree.leaves().contains(id));
    assert(!before.tree.leaves().contains(new.id));
    if let Node::Split { ratio, .. } = sub {
        crate::tree_laws::law_close_undoes_split(
            before.tree,
            id,
            new.id,
            divider,
            vertical,
            ratio,
        );
        crate::tree_laws::lemma_new_pane_place(
            before.tree,
            id,
            new.id,
            divider,
            vertical,
            ratio,
        );
        assert(sub == Node::Split {
            id: divider,
            vertical,
            ratio,
            a: Box::new(Node::Leaf(id)),
            b: Box::new(Node::Leaf(new.id)),
        });
    }
    crate::tree_laws::lemma_rebalancing_moves_shares(mid, vertical, split.tree);
    crate::tree_laws::lemma_shares_do_not_matter(mid, split.tree, vertical, new.id);
    crate::tree_laws::lemma_rebalance_from(
        before.tree,
        split.tree.removed(new.id)->Some_0,
        vertical,
        closed.tree,
    );
    crate::tree_laws::law_equalize_keeps_tree(before.tree, vertical, closed.tree);
    let p = crate::tab::pane_ids(before.panes@);
    let q = crate::tab::pane_ids(split.panes@);
    assert(q =~= p.push(new.id));
    let k = q.index_of(new.id);
    assert(q.contains(new.id)) by {
        assert(q[p.len() as int] == new.id);
    }
    assert(k == p.len()) by {
        if k < p.len() {
            assert(p[k] == new.id);
        }
    }
    assert(closed.panes@ =~= before.panes@);
}

/// The next tab's previous tab is the tab itself, and the other way round.
pub proof fn law_next_and_previous(i: int, n: int)
    requires
        0 <= i < n,
    ensures
        0 <= crate::session::following(i, n) < n,
        0 <= crate::session::preceding(i, n) < n,
        crate::session::preceding(crate::session::following(i, n), n) == i,
        crate::session::following(crate::session::preceding(i, n), n) == i,
{
}

/// Moving a tab and moving it back leaves the tabs as they were.
pub proof fn law_move_back(tabs: Seq<Tab>, from: int, to: int)
    requires
        0 <= from < tabs.len(),
        0 <= to < tabs.len(),
    ensures
        ({
            let there = tabs.remove(from).insert(to, tabs[from]);
            there.remove(to).insert(from, there[to]) == tabs
        }),
{
    let there = tabs.remove(from).insert(to, tabs[from]);
    assert(there.remove(to) =~= tabs.remove(from));
    assert(there.remove(to).insert(from, there[to]) =~= tabs);
}

/// Going a pane on and a pane back comes out at the pane itself.
pub proof fn law_cycle_back(ids: Seq<u64>, k: int)
    requires
        ids.no_duplicates(),
        0 <= k < ids.len(),
    ensures
        ({
            let n = ids.len() as int;
            let next = ids[(k + 1) % n];
            ids[(ids.index_of(next) - 1) % n] == ids[k]
        }),
{
    let n = ids.len() as int;
    let j = (k + 1) % n;
    let next = ids[j];
    assert(0 <= j < n) by {
        vstd::arithmetic::div_mod::lemma_mod_bound(k + 1, n);
    }
    assert(ids.contains(next));
    let i = ids.index_of(next);
    assert(0 <= i < n && ids[i] == next);
    assert(i == j);
    if k + 1 < n {
        vstd::arithmetic::div_mod::lemma_small_mod((k + 1) as nat, n as nat);
        vstd::arithmetic::div_mod::lemma_small_mod(k as nat, n as nat);
    } else {
        vstd::arithmetic::div_mod::lemma_mod_self_0(n);
        vstd::arithmetic::div_mod::lemma_fundamental_div_mod_converse(-1, n, -1, n - 1);
    }
}

/// Only one pane takes the focus back: panes of hidden tabs never do, and two
/// panes cannot take it from each other in turn.
pub proof fn law_one_pane_claims_focus(app: App, a: u64, b: u64)
    requires
        app.claims_focus(a),
        app.claims_focus(b),
    ensures
        a == b,
{
}

/// A title that a pane sets is its tab's label whenever the pane is active.
pub proof fn law_title_is_label(t: Tab, u: Tab, id: u64, title: String)
    requires
        t.wf(),
        t.has(id),
        u.panes@ == t.panes@.update(
            crate::tab::pane_ids(t.panes@).index_of(id),
            (Pane {
                id,
                pid: t.panes@[crate::tab::pane_ids(t.panes@).index_of(id)].pid,
                title: Some(title),
            }),
        ),
    ensures
        crate::session::title_in(u.panes@, id) == Some(title),
        forall|x: u64| #[trigger] t.has(x) && x != id ==> crate::session::title_in(u.panes@, x)
            == crate::session::title_in(t.panes@, x),
{
    let p = crate::tab::pane_ids(t.panes@);
    let k = p.index_of(id);
    assert(0 <= k < p.len() && p[k] == id);
    assert(crate::tab::pane_ids(u.panes@) =~= p);
    assert forall|x: u64| #[trigger] t.has(x) && x != id implies crate::session::title_in(
        u.panes@,
        x,
    ) == crate::session::title_in(t.panes@, x) by {
        let j = p.index_of(x);
        assert(0 <= j < p.len() && p[j] == x);
    }
}

/// Dragging a divider keeps at least a twentieth of the space, but for a pixel,
/// on either side of it.
pub proof fn law_drag_leaves_room(share: Ratio, n: int, d: int, px: int)
    requires
        share.wf(),
        share.is_drag_share(n, d),
        0 < d,
        0 <= px <= 0x7fff_ffff,
        px * d <= 0x8_0000_0000_0000,
    ensures
        share.of_pixels(px) >= px / 20 - 1,
        px - share.of_pixels(px) >= px / 20,
{
    if 20 * n <= d {
        crate::geometry_laws::law_share_is_fair(share, 1, 20, px);
    } else if 20 * n >= 19 * d {
        crate::geometry_laws::law_share_is_fair(share, 19, 20, px);
    } else {
        crate::geometry_laws::law_share_is_fair(share, n, d, px);
        let q = px * n / d;
        vstd::arithmetic::div_mod::lemma_fundamental_div_mod(px * n, d);
        let rem = px * n % d;
        assert(20 * (q + 1) > px && 20 * q <= 19 * px) by (nonlinear_arith)
            requires
                px * n == d * q + rem,
                0 <= rem < d,
                d < 20 * n < 19 * d,
                0 <= px,
                0 < d,
        ;
    }
}

/// The shells of the panes `ids` go one after the other.
pub open spec fn shells_go(before: App, ids: Seq<u64>, after: App) -> bool
    decreases ids.len(),
{
    if ids.len() == 0 {
        after == before
    } else {
        exists|mid: App, exit: Exit| #[trigger]
            crate::notify::is_exit(before, mid, ids[0], exit) && !(exit is Unknown) && mid.wf()
                && shells_go(mid, ids.skip(1), after)
    }
}

/// A tab is gone when all its shells are, in whatever order they go, and no
/// other tab has changed.
pub proof fn law_tab_goes_with_its_shells(before: App, i: int, ids: Seq<u64>, after: App)
    requires
        before.wf(),
        0 <= i < before.tabs@.len(),
        ids.no_duplicates(),
        forall|x: u64| #[trigger] ids.contains(x) <==> before.tabs@[i].has(x),
        shells_go(before, ids, after),
    ensures
        after.tabs@ == before.tabs@.remove(i),
    decreases ids.len(),
{
    let t = before.tabs@[i];
    let p = crate::tab::pane_ids(t.panes@);
    assert(t.wf());
    assert(ids.to_set() =~= p.to_set()) by {
        assert forall|x: u64| ids.to_set().contains(x) == p.to_set().contains(x) by {
            assert(ids.contains(x) <==> t.has(x));
        }
    }
    ids.unique_seq_to_set();
    p.unique_seq_to_set();
    crate::tab::lemma_tree_of_one(t);
    let id = ids[0];
    let rest = ids.skip(1);
    let (mid, exit) = choose|mid: App, exit: Exit| #[trigger]
        crate::notify::is_exit(before, mid, id, exit) && !(exit is Unknown) && mid.wf()
            && shells_go(mid, rest, after);
    assert(ids.contains(id));
    assert(crate::session::is_tab_of(before.tabs@, id, i));
    match exit {
        Exit::Unknown => {},
        Exit::TabClosed { index } => {
            assert(crate::session::is_tab_of(before.tabs@, id, index as int));
            assert(index == i);
            assert(rest =~= seq![]);
        },
        Exit::PaneClosed { tab, .. } => {
            assert(crate::session::is_tab_of(before.tabs@, id, tab as int));
            assert(tab == i);
            let u = mid.tabs@[i];
            let k = p.index_of(id);
            crate::tab::lemma_removed_ids(t.panes@, k);
            crate::tab::lemma_remove_distinct(p, k);
            crate::tab::lemma_remove_distinct(ids, 0);
            assert(rest =~= ids.remove(0));
            assert forall|x: u64| #[trigger] rest.contains(x) <==> u.has(x) by {
                assert(ids.remove(0).contains(x) <==> ids.contains(x) && x != id);
                assert(p.remove(k).contains(x) <==> p.contains(x) && x != p[k]);
                assert(ids.contains(x) <==> t.has(x));
            }
            law_tab_goes_with_its_shells(mid, i, rest, after);
            assert(mid.tabs@.remove(i) =~= before.tabs@.remove(i));
        },
    }
}

/// Closing a tab hangs up on every shell of it whose process is known.
pub proof fn law_every_shell_is_hung_up(panes: Seq<Pane>, k: int)
    requires
        0 <= k < panes.len(),
        panes[k].pid != 0,
    ensures
        crate::session::known_pids(panes).contains(panes[k].pid),
    decreases panes.len(),
{
    let all = crate::session::known_pids(panes);
    let before = crate::session::known_pids(panes.drop_last());
    if k == panes.len() - 1 {
        assert(all[all.len() - 1] == panes[k].pid);
    } else {
        law_every_shell_is_hung_up(panes.drop_last(), k);
        let j = before.index_of(panes[k].pid);
        assert(0 <= j < before.len() && before[j] == panes[k].pid);
        assert(all[j] == panes[k].pid);
    }
}

/// A tab that is moved is where it was put, the others keep their order, and the
/// tab that was shown is shown still: the moved one at its new place, any other
/// one place on or back where the moved one passed it, else where it was.
pub proof fn law_moved_tab(before: App, after: App, from: int, to: int)
    requires
        before.wf(),
        after.wf(),
        0 <= from < before.tabs@.len(),
        0 <= to < before.tabs@.len(),
        crate::session::is_tab_moved(before, after, from, to),
    ensures
        after.tabs@[to] == before.tabs@[from],
        after.tabs@.remove(to) == before.tabs@.remove(from),
        before.active == from ==> after.active == to,
        from < before.active <= to ==> after.active == before.active - 1,
        to <= before.active < from ==> after.active == before.active + 1,
        before.active < from && before.active < to ==> after.active == before.active,
        before.active > from && before.active > to ==> after.active == before.active,
{
    let a = before.active as int;
    assert(after.tabs@.remove(to) =~= before.tabs@.remove(from));
    let k = if a == from {
        to
    } else if from < a <= to {
        a - 1
    } else if to <= a < from {
        a + 1
    } else {
        a
    };
    let t = before.tabs@[a];
    assert(after.tabs@[k] == t);
    assert(after.tabs@[after.active as int] == t);
    assert(t.wf());
    assert(t.has(t.active_pane));
    assert(crate::session::is_tab_of(after.tabs@, t.active_pane, k));
    assert(crate::session::is_tab_of(after.tabs@, t.active_pane, after.active as int));
}

/// A title that a shell sets is its pane's and nothing else changes: no other tab,
/// no other pane, no shell, and not the focus.
pub proof fn law_title_changes_one_pane(
    before: App,
    after: App,
    i: int,
    id: u64,
    title: String,
    j: int,
    k: int,
)
    requires
        before.wf(),
        crate::session::is_tab_of(before.tabs@, id, i),
        crate::session::is_titled(before, after, i, id, title),
        0 <= j < before.tabs@.len(),
        0 <= k < before.tabs@[j].panes@.len(),
    ensures
        after.tabs@.len() == before.tabs@.len(),
        after.tabs@[j].panes@.len() == before.tabs@[j].panes@.len(),
        after.tabs@[j].tree == before.tabs@[j].tree,
        after.tabs@[j].active_pane == before.tabs@[j].active_pane,
        ({
            let (p, q) = (before.tabs@[j].panes@[k], after.tabs@[j].panes@[k]);
            &&& q.id == p.id && q.pid == p.pid
            &&& p.id == id ==> q.title == Some(title)
            &&& p.id != id ==> q == p
        }),
{
    let t = before.tabs@[j];
    let ids = crate::tab::pane_ids(t.panes@);
    assert(t.wf());
    assert(ids[k] == t.panes@[k].id);
    if t.panes@[k].id == id {
        assert(ids.contains(id));
        assert(crate::session::is_tab_of(before.tabs@, id, j));
        assert(j == i);
        crate::tree::lemma_index_is(ids, k);
    } else if j == i {
        assert(ids.contains(id));
        let n = ids.index_of(id);
        assert(0 <= n < ids.len() && ids[n] == id);
    }
}

} // verus!
