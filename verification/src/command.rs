//! What actions of the user come down to: bound keys and the context menu.
use vstd::prelude::*;
use crate::config::Action;
use crate::session::App;
use crate::session::cycle_pane;
use crate::session::focus_pane_dir;
use crate::tab::find_pane;

verus! {

/// Something to do for the user.
#[derive(Debug)]
pub enum Command {
    Nothing,
    /// Put the selection on the clipboard.
    Copy,
    /// Send the clipboard's text to the shell.
    Paste,
    /// Open a tab whose shell starts where the shell `pid` is.
    NewTab { pid: u32 },
    /// Hang up on shells.
    HangUp(Vec<u32>),
    /// Show a tab.
    Show(usize),
    /// Split the pane.
    Split { vertical: bool },
    /// Give the focus to a pane.
    Focus(u64),
    /// Show the directory that the shell `pid` is in.
    OpenDir { pid: u32 },
}

/// The shell of the pane `id`; 0 where no tab has it.
pub open spec fn is_pid_of(app: App, id: u64, pid: u32) -> bool {
    if crate::session::has_pane(app.tabs@, id) {
        exists|i: int| #[trigger]
            crate::session::is_tab_of(app.tabs@, id, i) && app.tabs@[i].panes@[crate::tab::pane_ids(
                app.tabs@[i].panes@,
            ).index_of(id)].pid == pid
    } else {
        pid == 0
    }
}

/// The shells to hang up on for closing the tab of the pane `id`.
pub open spec fn are_tab_pids(app: App, id: u64, v: Seq<u32>) -> bool {
    if crate::session::has_pane(app.tabs@, id) {
        exists|i: int| #[trigger]
            crate::session::is_tab_of(app.tabs@, id, i) && v == crate::session::known_pids(
                app.tabs@[i].panes@,
            )
    } else {
        v == Seq::<u32>::empty()
    }
}

/// Closing the pane `id`: hanging up on its shell and no other, where its process
/// is known.
pub open spec fn is_pane_closing(app: App, id: u64, c: Command) -> bool {
    c matches Command::HangUp(v) && exists|pid: u32| #[trigger]
        is_pid_of(app, id, pid) && v@ == if pid == 0 {
            seq![]
        } else {
            seq![pid]
        }
}

/// Focus a pane, if there is one.
pub open spec fn focus_on(id: Option<u64>) -> Command {
    match id {
        Some(i) => Command::Focus(i),
        None => Command::Nothing,
    }
}

fn focus_command(id: Option<u64>) -> (c: Command)
    ensures
        c == focus_on(id),
{
    match id {
        Some(i) => Command::Focus(i),
        None => Command::Nothing,
    }
}

/// Moving the focus in direction (dx, dy) in the shown tab.
pub open spec fn is_focus_move(app: App, w: i32, h: i32, dx: int, dy: int, c: Command) -> bool {
    let t = app.tabs@[app.active as int];
    match c {
        Command::Focus(id) => crate::session::is_neighbour(t, w, h, dx, dy, Some(id)),
        Command::Nothing => crate::session::is_neighbour(t, w, h, dx, dy, None),
        _ => false,
    }
}

/// Moving the focus `step` places on in the shown tab.
pub open spec fn cycled(app: App, step: int) -> Command {
    let t = app.tabs@[app.active as int];
    let ids = t.tree.leaves();
    if ids.len() >= 2 {
        Command::Focus(ids[(ids.index_of(t.active_pane) + step) % (ids.len() as int)])
    } else {
        Command::Nothing
    }
}

/// The command of an action in the pane `id`, in tabs of `w` by `h` pixels.
pub open spec fn is_command(app: App, a: Action, id: u64, w: i32, h: i32, c: Command) -> bool {
    let n = app.tabs@.len() as int;
    match a {
        Action::Copy => c == Command::Copy,
        Action::Paste => c == Command::Paste,
        Action::NewTab => c matches Command::NewTab { pid } && is_pid_of(app, id, pid),
        Action::CloseTab => c matches Command::HangUp(v) && are_tab_pids(app, id, v@),
        Action::CloseWorkspace => is_pane_closing(app, id, c),
        Action::NextTab => c == Command::Show(
            crate::session::following(app.active as int, n) as usize,
        ),
        Action::PrevTab => c == Command::Show(
            crate::session::preceding(app.active as int, n) as usize,
        ),
        Action::SplitHorizontal => c == (Command::Split { vertical: false }),
        Action::SplitVertical => c == (Command::Split { vertical: true }),
        Action::NextPane => c == cycled(app, 1),
        Action::PrevPane => c == cycled(app, -1),
        Action::FocusPaneUp => is_focus_move(app, w, h, 0, -1, c),
        Action::FocusPaneDown => is_focus_move(app, w, h, 0, 1, c),
        Action::FocusPaneLeft => is_focus_move(app, w, h, -1, 0, c),
        Action::FocusPaneRight => is_focus_move(app, w, h, 1, 0, c),
    }
}

impl App {
    /// The shell of the pane `id`; 0 where no tab has it.
    pub fn pid_of(&self, id: u64) -> (pid: u32)
        requires
            self.wf(),
        ensures
            is_pid_of(*self, id, pid),
    {
        match self.tab_of(id) {
            Some(i) => {
                assert(self.tabs@[i as int].wf());
                match find_pane(&self.tabs[i].panes, id) {
                    Some(k) => {
                        proof {
                            let ids = crate::tab::pane_ids(self.tabs@[i as int].panes@);
                            assert(ids[k as int] == id);
                            let j = ids.index_of(id);
                            assert(0 <= j < ids.len() && ids[j] == id);
                            assert(crate::session::is_tab_of(self.tabs@, id, i as int));
                        }
                        self.tabs[i].panes[k].pid
                    },
                    None => vstd::pervasive::unreached(),
                }
            },
            None => 0,
        }
    }

    fn hang_up_tab(&self, id: u64) -> (c: Command)
        requires
            self.wf(),
        ensures
            c matches Command::HangUp(v) && are_tab_pids(*self, id, v@),
    {
        let v: Vec<u32> = self.close_tab_of(id);
        proof {
            if crate::session::has_pane(self.tabs@, id) {
                let i = choose|i: int| #[trigger] crate::session::is_tab_of(self.tabs@, id, i);
                assert(crate::session::is_tab_of(self.tabs@, id, i));
            }
        }
        Command::HangUp(v)
    }

    fn hang_up_pane(&self, id: u64) -> (c: Command)
        requires
            self.wf(),
        ensures
            is_pane_closing(*self, id, c),
    {
        let pid: u32 = self.pid_of(id);
        let mut v: Vec<u32> = Vec::new();
        if pid != 0 {
            v.push(pid);
        }
        assert(v@ =~= if pid == 0 {
            seq![]
        } else {
            seq![pid]
        });
        Command::HangUp(v)
    }

    /// The command of an action in the pane `id`, in tabs of `w` by `h` pixels.
    pub fn command(&self, a: Action, id: u64, w: i32, h: i32) -> (c: Command)
        requires
            self.wf(),
            self.tabs@.len() > 0,
            self.fits(w, h),
        ensures
            is_command(*self, a, id, w, h, c),
    {
        match a {
            Action::Copy => Command::Copy,
            Action::Paste => Command::Paste,
            Action::NewTab => Command::NewTab { pid: self.pid_of(id) },
            Action::CloseTab => self.hang_up_tab(id),
            Action::CloseWorkspace => self.hang_up_pane(id),
            Action::NextTab => match self.next_tab() {
                Some(i) => Command::Show(i),
                None => Command::Nothing,
            },
            Action::PrevTab => match self.prev_tab() {
                Some(i) => Command::Show(i),
                None => Command::Nothing,
            },
            Action::SplitHorizontal => Command::Split { vertical: false },
            Action::SplitVertical => Command::Split { vertical: true },
            Action::NextPane => focus_command(cycle_pane(self, 1)),
            Action::PrevPane => focus_command(cycle_pane(self, -1)),
            Action::FocusPaneUp => focus_command(focus_pane_dir(self, 0, -1, w, h)),
            Action::FocusPaneDown => focus_command(focus_pane_dir(self, 0, 1, w, h)),
            Action::FocusPaneLeft => focus_command(focus_pane_dir(self, -1, 0, w, h)),
            Action::FocusPaneRight => focus_command(focus_pane_dir(self, 1, 0, w, h)),
        }
    }

    /// Opening a tab from the tab bar: its shell starts where that of the shown
    /// tab's active pane is.
    pub fn tab_add_requested(&self) -> (c: Command)
        requires
            self.wf(),
            self.tabs@.len() > 0,
        ensures
            c matches Command::NewTab { pid } && is_pid_of(
                *self,
                self.tabs@[self.active as int].active_pane,
                pid,
            ),
    {
        Command::NewTab { pid: self.pid_of(self.tabs[self.active].active_pane) }
    }
}

// ---- the context menu ----

/// A line of the context menu.
#[derive(Clone, Copy, Debug, PartialEq, Eq, Structural)]
pub enum MenuEntry {
    Copy,
    Paste,
    OpenInFileManager,
    Separator,
    SplitHorizontal,
    SplitVertical,
    NewTab,
    CloseWorkspace,
}

/// The key of a line's text; a separator has none.
pub open spec fn label_key(e: MenuEntry) -> Option<Seq<char>> {
    match e {
        MenuEntry::Copy => Some("menu.copy"@),
        MenuEntry::Paste => Some("menu.paste"@),
        MenuEntry::OpenInFileManager => Some("menu.open_in_file_manager"@),
        MenuEntry::Separator => None,
        MenuEntry::SplitHorizontal => Some("menu.split_horizontal"@),
        MenuEntry::SplitVertical => Some("menu.split_vertical"@),
        MenuEntry::NewTab => Some("menu.new_tab"@),
        MenuEntry::CloseWorkspace => Some("menu.close_workspace"@),
    }
}

impl MenuEntry {
    /// The key of the line's text; a separator has none.
    pub fn key(&self) -> (r: Option<&'static str>)
        ensures
            r is Some == label_key(*self) is Some,
            r is Some ==> r->Some_0@ == label_key(*self)->Some_0,
    {
        match self {
            MenuEntry::Copy => Some("menu.copy"),
            MenuEntry::Paste => Some("menu.paste"),
            MenuEntry::OpenInFileManager => Some("menu.open_in_file_manager"),
            MenuEntry::Separator => None,
            MenuEntry::SplitHorizontal => Some("menu.split_horizontal"),
            MenuEntry::SplitVertical => Some("menu.split_vertical"),
            MenuEntry::NewTab => Some("menu.new_tab"),
            MenuEntry::CloseWorkspace => Some("menu.close_workspace"),
        }
    }
}

/// The lines of the context menu.
pub open spec fn menu() -> Seq<MenuEntry> {
    seq![
        MenuEntry::Copy,
        MenuEntry::Paste,
        MenuEntry::OpenInFileManager,
        MenuEntry::Separator,
        MenuEntry::SplitHorizontal,
        MenuEntry::SplitVertical,
        MenuEntry::Separator,
        MenuEntry::NewTab,
        MenuEntry::CloseWorkspace,
    ]
}

/// The command of a line of the menu of the pane `id`.
pub open spec fn is_menu_command(app: App, e: MenuEntry, id: u64, c: Command) -> bool {
    match e {
        MenuEntry::Copy => c == Command::Copy,
        MenuEntry::Paste => c == Command::Paste,
        MenuEntry::OpenInFileManager => c matches Command::OpenDir { pid } && is_pid_of(
            app,
            id,
            pid,
        ),
        MenuEntry::Separator => c == Command::Nothing,
        MenuEntry::SplitHorizontal => c == (Command::Split { vertical: false }),
        MenuEntry::SplitVertical => c == (Command::Split { vertical: true }),
        MenuEntry::NewTab => c matches Command::NewTab { pid } && is_pid_of(
            app,
            app.tabs@[app.active as int].active_pane,
            pid,
        ),
        MenuEntry::CloseWorkspace => is_pane_closing(app, id, c),
    }
}

impl App {
    /// The command of a line of the menu of the pane `id`.
    pub fn menu_command(&self, e: MenuEntry, id: u64) -> (c: Command)
        requires
            self.wf(),
            self.tabs@.len() > 0,
        ensures
            is_menu_command(*self, e, id, c),
    {
        match e {
            MenuEntry::Copy => Command::Copy,
            MenuEntry::Paste => Command::Paste,
            MenuEntry::OpenInFileManager => Command::OpenDir { pid: self.pid_of(id) },
            MenuEntry::Separator => Command::Nothing,
            MenuEntry::SplitHorizontal => Command::Split { vertical: false },
            MenuEntry::SplitVertical => Command::Split { vertical: true },
            MenuEntry::NewTab => self.tab_add_requested(),
            MenuEntry::CloseWorkspace => self.hang_up_pane(id),
        }
    }
}

/// The context menu of the pane `id`, where some tab has it.
pub fn context_menu(app: &App, id: u64) -> (r: Option<Vec<MenuEntry>>)
    ensures
        r is Some <==> crate::session::has_pane(app.tabs@, id),
        r is Some ==> r->Some_0@ == menu(),
{
    if app.tab_of(id).is_none() {
        return None;
    }
    let v: Vec<MenuEntry> = vec![
        MenuEntry::Copy,
        MenuEntry::Paste,
        MenuEntry::OpenInFileManager,
        MenuEntry::Separator,
        MenuEntry::SplitHorizontal,
        MenuEntry::SplitVertical,
        MenuEntry::Separator,
        MenuEntry::NewTab,
        MenuEntry::CloseWorkspace,
    ];
    assert(v@ =~= menu());
    Some(v)
}

} // verus!
