//! Dividers under the mouse: touching and dragging them.
use vstd::prelude::*;
use crate::geometry::DIV;
use crate::geometry::Divider;
use crate::geometry::HIT_SLACK;
use crate::geometry::Rect;
use crate::geometry::dividers_of;
use crate::geometry::find_divider;
use crate::geometry::point_in;
use crate::mouse::MouseEvent;
use crate::mouse::MouseKind;
use crate::qt::cursor;
use crate::qt::mouse_button;
use crate::ratio::Ratio;
use crate::session::App;
use crate::tab::Tab;
use crate::tree::set_share;

verus! {

/// Whether a point is on a divider's band or close to it.
pub open spec fn touches(d: Divider, x: int, y: int) -> bool {
    let b = d.3;
    b.0 - HIT_SLACK <= x < b.0 + b.2 + HIT_SLACK && b.1 - HIT_SLACK <= y < b.1 + b.3 + HIT_SLACK
}

/// The first divider that a point touches: its id and whether it is vertical.
pub open spec fn touched(ds: Seq<Divider>, x: int, y: int) -> Option<(u64, bool)>
    decreases ds.len(),
{
    if ds.len() == 0 {
        None
    } else if touches(ds[0], x, y) {
        Some((ds[0].0, ds[0].1))
    } else {
        touched(ds.skip(1), x, y)
    }
}

/// The cursor over a divider: a vertical one is dragged sideways.
pub open spec fn resize_cursor(vertical: bool) -> i32 {
    if vertical {
        cursor::SIZE_HOR
    } else {
        cursor::SIZE_VER
    }
}

pub fn resize_shape(vertical: bool) -> (c: i32)
    ensures
        c == resize_cursor(vertical),
{
    if vertical {
        cursor::SIZE_HOR
    } else {
        cursor::SIZE_VER
    }
}

/// How far a point is into the space that a divider divides.
pub open spec fn drag_offset(vertical: bool, r: Rect, x: int, y: int) -> int {
    if vertical {
        x - r.0
    } else {
        y - r.1
    }
}

/// The space that a divider divides, without the divider itself.
pub open spec fn drag_length(vertical: bool, r: Rect) -> int {
    crate::render::at_least_1(
        (if vertical {
            r.2
        } else {
            r.3
        }) - DIV,
    )
}

/// What dragging the divider `id` to a point makes of a tab in `w` by `h`
/// pixels: its share is that of the point in the space it divides, kept within
/// a twentieth of either end; no other divider moves.
pub open spec fn is_dragged(before: Tab, after: Tab, id: u64, x: int, y: int, w: i32, h: i32) -> bool {
    &&& after.panes@ == before.panes@
    &&& after.active_pane == before.active_pane
    &&& match before.tree.divider(id, (0, 0, w, h)) {
        Some((vertical, r)) => exists|share: Ratio| #[trigger]
            share.is_drag_share(drag_offset(vertical, r, x, y), drag_length(vertical, r))
                && share.wf() && after.tree == before.tree.with_share(id, share),
        None => after.tree == before.tree,
    }
}

/// What a mouse event did to dividers.
#[derive(Clone, Copy, Debug, PartialEq, Eq, Structural)]
pub struct DividerOutcome {
    /// The event is dealt with.
    pub consumed: bool,
    /// The cursor to show.
    pub cursor: Option<i32>,
    /// The pane to give the focus to.
    pub focus: Option<u64>,
    /// A divider moved: the panes are to be laid out anew.
    pub moved: bool,
}

/// What a mouse event over the dividers of the shown tab does: a press on one
/// takes hold of it, movement drags what is held, a release lets go and gives
/// the focus back.
pub open spec fn divider_answer(
    before: App,
    after: App,
    drag: Option<u64>,
    dragged: Option<u64>,
    m: MouseEvent,
    w: i32,
    h: i32,
    r: DividerOutcome,
) -> bool {
    let a = before.active as int;
    let t = before.tabs@[a];
    let hit = touched(t.tree.dividers((0, 0, w, h)), m.x as int, m.y as int);
    if m.kind is Press && m.button == mouse_button::LEFT && hit is Some {
        &&& r.consumed && r.moved && r.focus is None
        &&& r.cursor == Some(resize_cursor(hit->Some_0.1))
        &&& dragged == Some(hit->Some_0.0)
        &&& after.tabs@ == before.tabs@.update(a, after.tabs@[a])
        &&& is_dragged(t, after.tabs@[a], hit->Some_0.0, m.x as int, m.y as int, w, h)
    } else if m.kind is Move && drag is Some {
        &&& r.consumed && r.moved && r.focus is None && r.cursor is None
        &&& dragged == drag
        &&& after.tabs@ == before.tabs@.update(a, after.tabs@[a])
        &&& is_dragged(t, after.tabs@[a], drag->Some_0, m.x as int, m.y as int, w, h)
    } else if m.kind is Release && drag is Some {
        &&& r.consumed && !r.moved && r.focus == Some(t.active_pane)
        &&& r.cursor == Some(cursor::ARROW)
        &&& dragged is None
        &&& after.tabs@ == before.tabs@
    } else {
        &&& !r.consumed && !r.moved && r.focus is None && r.cursor is None
        &&& dragged == drag
        &&& after.tabs@ == before.tabs@
    }
}

impl App {
    /// The divider of the shown tab that a point touches.
    pub fn divider_at(&self, x: i32, y: i32, w: i32, h: i32) -> (r: Option<(u64, bool)>)
        requires
            self.wf(),
            self.tabs@.len() > 0,
            self.fits(w, h),
        ensures
            r == touched(
                self.tabs@[self.active as int].tree.dividers((0, 0, w, h)),
                x as int,
                y as int,
            ),
    {
        let t: &Tab = &self.tabs[self.active];
        let mut ds: Vec<Divider> = Vec::new();
        dividers_of(&t.tree, 0, 0, w, h, &mut ds);
        let ghost all = t.tree.dividers((0, 0, w, h));
        assert(ds@ =~= all);
        assert(all.skip(0) =~= all);
        for i in 0..ds.len()
            invariant
                ds@ == all,
                all == self.tabs@[self.active as int].tree.dividers((0, 0, w, h)),
                touched(all, x as int, y as int) == touched(all.skip(i as int), x as int, y as int),
        {
            assert(all.skip(i as int)[0] == all[i as int]);
            assert(all.skip(i as int).skip(1) =~= all.skip(i as int + 1));
            if point_in(ds[i].3, x, y, HIT_SLACK) {
                return Some((ds[i].0, ds[i].1));
            }
        }
        None
    }

    /// Drag the divider `id` of the shown tab to a point.
    pub fn divider_drag(&mut self, id: u64, x: i32, y: i32, w: i32, h: i32)
        requires
            old(self).wf(),
            old(self).tabs@.len() > 0,
            old(self).fits(w, h),
        ensures
            final(self).wf(),
            final(self).fits(w, h),
            final(self).active == old(self).active,
            final(self).next_id == old(self).next_id,
            final(self).tabs@ == old(self).tabs@.update(
                old(self).active as int,
                final(self).tabs@[old(self).active as int],
            ),
            is_dragged(
                old(self).tabs@[old(self).active as int],
                final(self).tabs@[old(self).active as int],
                id,
                x as int,
                y as int,
                w,
                h,
            ),
    {
        let a: usize = self.active;
        let ghost before = self.tabs@;
        let found: Option<(bool, Rect)> = find_divider(&self.tabs[a].tree, id, 0, 0, w, h);
        let (vertical, r): (bool, Rect) = match found {
            Some(p) => p,
            None => {
                assert(self.tabs@ =~= before.update(a as int, before[a as int]));
                return ;
            },
        };
        let (n, len): (i64, i64) = if vertical {
            (x as i64 - r.0 as i64, r.2 as i64 - DIV as i64)
        } else {
            (y as i64 - r.1 as i64, r.3 as i64 - DIV as i64)
        };
        let d: i64 = if len < 1 {
            1
        } else {
            len
        };
        let share: Ratio = Ratio::of_drag(n, d);
        set_share(&mut self.tabs[a].tree, id, share);
        proof {
            let t = before[a as int];
            let u = self.tabs@[a as int];
            crate::tree_laws::law_drag_keeps_tree(t.tree, id, share);
            assert(share.is_drag_share(
                drag_offset(vertical, r, x as int, y as int),
                drag_length(vertical, r),
            ));
            assert(t.wf());
            assert(u.has(u.active_pane)) by {
                assert(t.has(t.active_pane));
            }
            assert(self.tabs@ =~= before.update(a as int, u));
            crate::session::lemma_same_panes(before, self.tabs@, a as int, self.next_id);
            assert forall|i: int| 0 <= i < self.tabs@.len() implies crate::geometry::fits(
                (#[trigger] self.tabs@[i]).tree.depth(),
                (0, 0, w, h),
            ) by {
                assert(crate::geometry::fits(before[i].tree.depth(), (0, 0, w, h)));
            }
        }
    }

    /// A mouse event over the dividers of the shown tab, `drag` being the one
    /// that is dragged: a press on a divider takes hold of it, movement drags
    /// what is held, a release lets go and gives the focus back.
    pub fn divider_mouse(&mut self, drag: &mut Option<u64>, m: &MouseEvent, w: i32, h: i32) -> (r:
        DividerOutcome)
        requires
            old(self).wf(),
            old(self).tabs@.len() > 0,
            old(self).fits(w, h),
        ensures
            final(self).wf(),
            final(self).fits(w, h),
            final(self).active == old(self).active,
            final(self).next_id == old(self).next_id,
            divider_answer(*old(self), *final(self), *old(drag), *final(drag), *m, w, h, r),
    {
        let nothing: DividerOutcome = DividerOutcome {
            consumed: false,
            cursor: None,
            focus: None,
            moved: false,
        };
        match m.kind {
            MouseKind::Press => {
                if m.button == mouse_button::LEFT {
                    if let Some((id, vertical)) = self.divider_at(m.x, m.y, w, h) {
                        *drag = Some(id);
                        self.divider_drag(id, m.x, m.y, w, h);
                        return DividerOutcome {
                            consumed: true,
                            cursor: Some(resize_shape(vertical)),
                            focus: None,
                            moved: true,
                        };
                    }
                }
                nothing
            },
            MouseKind::Move => {
                if let Some(id) = *drag {
                    self.divider_drag(id, m.x, m.y, w, h);
                    return DividerOutcome {
                        consumed: true,
                        cursor: None,
                        focus: None,
                        moved: true,
                    };
                }
                nothing
            },
            MouseKind::Release => {
                if drag.is_some() {
                    *drag = None;
                    return DividerOutcome {
                        consumed: true,
                        cursor: Some(cursor::ARROW),
                        focus: Some(self.tabs[self.active].active_pane),
                        moved: false,
                    };
                }
                nothing
            },
            _ => nothing,
        }
    }
}

} // verus!
