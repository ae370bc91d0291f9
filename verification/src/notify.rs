//! What the messages of a shell's reader do to the session.
use vstd::prelude::*;
use crate::session::App;
use crate::session::Exit;
use crate::shell::says_gone;
use crate::title::TitleSlot;

verus! {

/// What messages of a pane's reader come down to.
#[derive(Clone, Copy, Debug, PartialEq, Eq, Structural)]
pub enum Poke {
    /// No tab has the pane any more.
    Ignored,
    /// The shell is gone.
    Gone(Exit),
    /// There was output: whether the pane is to be painted anew, which it is
    /// where its tab is shown, and whether to start the timer for its title.
    Output { repaint: bool, start_timer: bool },
}

impl App {
    /// The reader of the pane `id` has sent messages; `slot` holds its title.
    pub fn poked(&mut self, id: u64, messages: &Vec<u8>, slot: &mut TitleSlot) -> (r: Poke)
        requires
            old(self).wf(),
        ensures
            final(self).wf(),
            ({
                let known = crate::session::has_pane(old(self).tabs@, id);
                let gone = messages@.contains(crate::shell::GONE);
                match r {
                    Poke::Ignored => !known && *final(self) == *old(self) && *final(slot) == *old(
                        slot,
                    ),
                    Poke::Gone(exit) => {
                        &&& known && gone
                        &&& !(exit is Unknown)
                        &&& *final(slot) == *old(slot)
                        &&& !crate::session::has_pane(final(self).tabs@, id)
                        &&& is_exit(*old(self), *final(self), id, exit)
                    },
                    Poke::Output { repaint, start_timer } => {
                        &&& known && !gone
                        &&& *final(self) == *old(self)
                        &&& repaint == crate::session::is_tab_of(
                            old(self).tabs@,
                            id,
                            old(self).active as int,
                        )
                        &&& start_timer == (old(slot).pending is Some && !old(slot).armed)
                        &&& final(slot).pending == old(slot).pending
                        &&& final(slot).armed == (old(slot).armed || start_timer)
                    },
                }
            }),
    {
        let tab: usize = match self.tab_of(id) {
            Some(i) => i,
            None => return Poke::Ignored,
        };
        if says_gone(messages) {
            let exit: Exit = self.pane_exited(id);
            return Poke::Gone(exit);
        }
        let start_timer: bool = slot.poke();
        let repaint: bool = tab == self.active;
        proof {
            assert(crate::session::is_tab_of(self.tabs@, id, tab as int));
        }
        Poke::Output { repaint, start_timer }
    }

    /// The timer for the title of the pane `id` ran out. The tab whose label
    /// changes with the title, if one does.
    pub fn title_due(&mut self, id: u64, slot: &mut TitleSlot) -> (r: Option<usize>)
        requires
            old(self).wf(),
        ensures
            final(self).wf(),
            final(slot).pending is None,
            !final(slot).armed,
            final(self).active == old(self).active,
            final(self).next_id == old(self).next_id,
            r is Some <==> old(slot).pending is Some && old(self).is_focused(id),
            r is Some ==> crate::session::is_tab_of(old(self).tabs@, id, r->Some_0 as int),
            old(slot).pending is None || !crate::session::has_pane(old(self).tabs@, id)
                ==> *final(self) == *old(self),
            forall|i: int|
                old(slot).pending is Some && #[trigger] crate::session::is_tab_of(
                    old(self).tabs@,
                    id,
                    i,
                ) ==> crate::session::is_titled(
                    *old(self),
                    *final(self),
                    i,
                    id,
                    old(slot).pending->Some_0,
                ),
    {
        match slot.expire() {
            Some(t) => self.set_title(id, t),
            None => None,
        }
    }
}

/// What becomes of a session when the shell of the pane `id` is gone.
pub open spec fn is_exit(before: App, after: App, id: u64, exit: Exit) -> bool {
    &&& after.next_id == before.next_id
    &&& match exit {
        Exit::Unknown => after == before,
        Exit::TabClosed { index } => crate::session::is_tab_closed(before, after, id, index as int),
        Exit::PaneClosed { tab, focus } => crate::session::is_pane_closed(
            before,
            after,
            id,
            tab as int,
            focus,
        ),
    }
}

} // verus!
