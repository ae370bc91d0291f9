//! Titles that shells set: bursts of them are gathered before one is applied.
use vstd::prelude::*;

verus! {

/// Milliseconds between the first title of a burst and applying the last.
pub const TITLE_DELAY_MS: u32 = 30;

/// A shell's latest title that is not applied yet, and whether a timer runs for
/// it.
#[derive(Debug)]
pub struct TitleSlot {
    pub pending: Option<String>,
    pub armed: bool,
}

impl TitleSlot {
    /// The slot after a title was set.
    pub open spec fn offered(self, title: String) -> TitleSlot {
        if title@.len() == 0 {
            self
        } else {
            TitleSlot { pending: Some(title), armed: self.armed }
        }
    }

    /// Whether a timer is to be started: a title waits and none runs yet.
    pub open spec fn starts(self) -> bool {
        self.pending is Some && !self.armed
    }

    /// The slot after the shell has sent something.
    pub open spec fn poked(self) -> TitleSlot {
        TitleSlot { pending: self.pending, armed: self.armed || self.starts() }
    }

    pub fn new() -> (s: TitleSlot)
        ensures
            s.pending is None,
            !s.armed,
    {
        TitleSlot { pending: None, armed: false }
    }

    /// The shell sets a title. An empty one is ignored: shells send it before
    /// every prompt, and applying it would make the label flicker.
    pub fn offer(&mut self, title: String)
        ensures
            *final(self) == old(self).offered(title),
            final(self).armed == old(self).armed,
            final(self).pending == if title@.len() == 0 {
                old(self).pending
            } else {
                Some(title)
            },
    {
        if !is_empty(&title) {
            self.pending = Some(title);
        }
    }

    /// The shell has sent something. Whether a timer is to be started now: a
    /// title waits and no timer runs yet.
    pub fn poke(&mut self) -> (start: bool)
        ensures
            start == old(self).starts(),
            *final(self) == old(self).poked(),
            start == (old(self).pending is Some && !old(self).armed),
            final(self).pending == old(self).pending,
            final(self).armed == (old(self).armed || start),
    {
        if self.pending.is_some() && !self.armed {
            self.armed = true;
            true
        } else {
            false
        }
    }

    /// The timer ran out. The title to apply, if one still waits.
    pub fn expire(&mut self) -> (title: Option<String>)
        ensures
            title == old(self).pending,
            final(self).pending is None,
            !final(self).armed,
    {
        self.armed = false;
        self.pending.take()
    }
}

fn is_empty(s: &String) -> (r: bool)
    ensures
        r == (s@.len() == 0),
{
    crate::text::chars_of(s.as_str()).len() == 0
}

// ---- laws ----

/// Of a burst of titles the last one that is not empty counts.
pub proof fn law_last_title_counts(s: TitleSlot, a: String, b: String)
    ensures
        b@.len() > 0 ==> s.offered(a).offered(b).pending == Some(b),
        b@.len() == 0 ==> s.offered(a).offered(b) == s.offered(a),
        a@.len() > 0 && b@.len() == 0 ==> s.offered(a).offered(b).pending == Some(a),
{
}

/// A burst starts one timer: the first output with a title waiting starts it, no
/// further one does until it has run out, whatever titles come meanwhile, and
/// without a title none is started.
pub proof fn law_one_timer_per_burst(s: TitleSlot, a: String)
    ensures
        s.pending is None ==> !s.starts(),
        s.pending is Some && !s.armed ==> s.starts(),
        !s.poked().starts(),
        !s.poked().offered(a).starts() || s.pending is None,
        s.poked().pending == s.pending,
{
}

} // verus!
