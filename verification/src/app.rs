use vstd::prelude::*;

use crate::post::{opt_view, Post};

verus! {

/// The screen the reader shows.
pub enum Screen {
    /// A message shown while posts are being fetched.
    Loading(String),
    /// The list of posts.
    Main,
    /// One post, by its index in the list.
    Detail(usize),
    /// The key bindings, over the list.
    Help,
}

/// The reader's state: the posts, the selection, the scroll positions and the screen.
pub struct App {
    pub screen: Screen,
    pub posts: Vec<Post>,
    /// Index of the selected post.
    pub selected: usize,
    /// How far the open post is scrolled down.
    pub scroll_offset: usize,
    /// Index of the first post shown in the list.
    pub list_offset: usize,
    pub should_quit: bool,
}

/// A key the reader reacts to.
#[derive(Clone, Copy, Debug, PartialEq, Eq, Structural)]
pub enum Key {
    Char(char),
    Up,
    Down,
    Enter,
    Esc,
    /// Any other key.
    Other,
}

/// What a key press asks for.
#[derive(Clone, Copy, Debug, PartialEq, Eq, Structural)]
pub enum Action {
    Quit,
    MoveDown,
    MoveUp,
    OpenDetail,
    CloseDetail,
    ScrollDown,
    ScrollUp,
    /// Open the link of the post with this index.
    OpenLink(usize),
    ToggleHelp,
    Nothing,
}

impl App {
    /// The selection lies within the posts and the list starts at or before it.
    pub open spec fn wf(&self) -> bool {
        &&& (self.posts@.len() == 0 ==> self.selected == 0)
        &&& (self.posts@.len() > 0 ==> self.selected < self.posts@.len())
        &&& self.list_offset <= self.selected
    }

    /// The selection is among the `visible_height` rows shown from `list_offset` on.
    pub open spec fn selection_visible(&self, visible_height: usize) -> bool {
        self.list_offset <= self.selected < self.list_offset + visible_height
    }

    /// Everything but the selection and the list position is as in `old`.
    pub open spec fn same_but_navigation(&self, old: &App) -> bool {
        &&& self.screen == old.screen
        &&& self.posts@ == old.posts@
        &&& self.scroll_offset == old.scroll_offset
        &&& self.should_quit == old.should_quit
    }

    /// Everything but the screen and the scroll position is as in `old`.
    pub open spec fn same_but_screen(&self, old: &App) -> bool {
        &&& self.posts@ == old.posts@
        &&& self.selected == old.selected
        &&& self.list_offset == old.list_offset
        &&& self.should_quit == old.should_quit
    }
}

/// `new` is `old` after moving the selection up one post.
pub open spec fn moved_up(old: &App, new: &App) -> bool {
    &&& new.same_but_navigation(old)
    &&& if old.selected > 0 {
        &&& new.selected == old.selected - 1
        &&& new.list_offset == if new.selected < old.list_offset {
            new.selected
        } else {
            old.list_offset
        }
    } else {
        new.selected == old.selected && new.list_offset == old.list_offset
    }
}

/// `new` is `old` after moving the selection down one post, with `visible_height`
/// rows of the list on screen.
pub open spec fn moved_down(old: &App, new: &App, visible_height: usize) -> bool {
    &&& new.same_but_navigation(old)
    &&& if old.selected + 1 < old.posts@.len() {
        &&& new.selected == old.selected + 1
        &&& new.list_offset == if new.selected >= old.list_offset + visible_height {
            new.selected - visible_height + 1
        } else {
            old.list_offset as int
        }
    } else {
        new.selected == old.selected && new.list_offset == old.list_offset
    }
}

/// The screen that toggling help leads to from `s`.
pub open spec fn toggled(s: Screen) -> Screen {
    match s {
        Screen::Help => Screen::Main,
        _ => Screen::Help,
    }
}

impl App {
    /// A reader on the list of `posts`, with the first post selected.
    pub fn new(posts: Vec<Post>) -> (app: App)
        ensures
            app.screen == Screen::Main,
            app.posts@ == posts@,
            app.selected == 0,
            app.scroll_offset == 0,
            app.list_offset == 0,
            !app.should_quit,
            app.wf(),
    {
        App { screen: Screen::Main, posts, selected: 0, scroll_offset: 0, list_offset: 0, should_quit: false }
    }

    /// Moves the selection up one post, scrolling the list when the selection leaves it.
    pub fn move_up(&mut self)
        ensures
            moved_up(old(self), final(self)),
            old(self).wf() ==> final(self).wf(),
    {
        if self.selected > 0 {
            self.selected -= 1;
            if self.selected < self.list_offset {
                self.list_offset = self.selected;
            }
        }
    }

    /// Moves the selection down one post, scrolling the list so that the selection stays
    /// among the `visible_height` rows shown.
    pub fn move_down(&mut self, visible_height: usize)
        requires
            old(self).selected < usize::MAX,
            old(self).selected + 1 < old(self).posts@.len() ==> old(self).list_offset + visible_height
                <= usize::MAX,
        ensures
            moved_down(old(self), final(self), visible_height),
            old(self).wf() && visible_height > 0 ==> final(self).wf(),
            visible_height > 0 && old(self).selection_visible(visible_height) ==> final(self).selection_visible(
                visible_height,
            ),
    {
        if self.selected + 1 < self.posts.len() {
            self.selected += 1;
            if self.selected >= self.list_offset + visible_height {
                self.list_offset = self.selected - visible_height + 1;
            }
        }
    }

    /// Opens the selected post, scrolled to its top; does nothing when there are no posts.
    pub fn open_detail(&mut self)
        ensures
            final(self).same_but_screen(old(self)),
            old(self).posts@.len() > 0 ==> final(self).screen == Screen::Detail(old(self).selected)
                && final(self).scroll_offset == 0,
            old(self).posts@.len() == 0 ==> final(self).screen == old(self).screen
                && final(self).scroll_offset == old(self).scroll_offset,
    {
        if !self.posts.is_empty() {
            self.scroll_offset = 0;
            self.screen = Screen::Detail(self.selected);
        }
    }

    /// Goes back to the list.
    pub fn close_detail(&mut self)
        ensures
            final(self).same_but_screen(old(self)),
            final(self).scroll_offset == old(self).scroll_offset,
            final(self).screen == Screen::Main,
    {
        self.screen = Screen::Main;
    }

    /// Shows the help, or goes back to the list when the help is shown.
    pub fn toggle_help(&mut self)
        ensures
            final(self).same_but_screen(old(self)),
            final(self).scroll_offset == old(self).scroll_offset,
            final(self).screen == toggled(old(self).screen),
    {
        match self.screen {
            Screen::Help => self.screen = Screen::Main,
            _ => self.screen = Screen::Help,
        }
    }

    /// Scrolls the open post down one line.
    pub fn scroll_down(&mut self)
        requires
            old(self).scroll_offset < usize::MAX,
        ensures
            final(self).same_but_screen(old(self)),
            final(self).screen == old(self).screen,
            final(self).scroll_offset == old(self).scroll_offset + 1,
    {
        self.scroll_offset += 1;
    }

    /// Scrolls the open post up one line, stopping at its top.
    pub fn scroll_up(&mut self)
        ensures
            final(self).same_but_screen(old(self)),
            final(self).screen == old(self).screen,
            final(self).scroll_offset == if old(self).scroll_offset > 0 {
                old(self).scroll_offset - 1
            } else {
                0
            },
    {
        self.scroll_offset = self.scroll_offset.saturating_sub(1);
    }

    /// The link of the post with index `idx`, if there is such a post and it has a link.
    pub fn link_at(&self, idx: usize) -> (r: Option<String>)
        ensures
            opt_view(r) == if idx < self.posts@.len() {
                opt_view(self.posts@[idx as int].link)
            } else {
                None
            },
    {
        if idx < self.posts.len() {
            match &self.posts[idx].link {
                Some(link) => Some(link.clone()),
                None => None,
            }
        } else {
            None
        }
    }
}

} // verus!

verus! {

/// What pressing `key` asks for on screen `screen` with post `selected` selected.
pub open spec fn key_action(screen: Screen, selected: usize, key: Key) -> Action {
    match screen {
        Screen::Main => match key {
            Key::Char('q') => Action::Quit,
            Key::Char('j') | Key::Down => Action::MoveDown,
            Key::Char('k') | Key::Up => Action::MoveUp,
            Key::Char(' ') | Key::Enter => Action::OpenDetail,
            Key::Char('v') => Action::OpenLink(selected),
            Key::Char('?') => Action::ToggleHelp,
            _ => Action::Nothing,
        },
        Screen::Detail(idx) => match key {
            Key::Char('q') => Action::Quit,
            Key::Esc | Key::Char(' ') => Action::CloseDetail,
            Key::Char('j') | Key::Down => Action::ScrollDown,
            Key::Char('k') | Key::Up => Action::ScrollUp,
            Key::Char('v') => Action::OpenLink(idx),
            Key::Char('?') => Action::ToggleHelp,
            _ => Action::Nothing,
        },
        Screen::Help => match key {
            Key::Char('?') | Key::Esc => Action::ToggleHelp,
            Key::Char('q') => Action::Quit,
            _ => Action::Nothing,
        },
        Screen::Loading(_) => Action::Nothing,
    }
}

/// `new` is `old` after carrying out `action` with `visible_height` rows of the list on
/// screen.
pub open spec fn applied(old: &App, new: &App, action: Action, visible_height: usize) -> bool {
    match action {
        Action::Quit => {
            &&& new.should_quit
            &&& new.screen == old.screen
            &&& new.posts@ == old.posts@
            &&& new.selected == old.selected
            &&& new.list_offset == old.list_offset
            &&& new.scroll_offset == old.scroll_offset
        },
        Action::MoveDown => moved_down(old, new, visible_height),
        Action::MoveUp => moved_up(old, new),
        Action::OpenDetail => new.same_but_screen(old) && if old.posts@.len() > 0 {
            new.screen == Screen::Detail(old.selected) && new.scroll_offset == 0
        } else {
            new.screen == old.screen && new.scroll_offset == old.scroll_offset
        },
        Action::CloseDetail => new.same_but_screen(old) && new.scroll_offset == old.scroll_offset
            && new.screen == Screen::Main,
        Action::ScrollDown => new.same_but_screen(old) && new.screen == old.screen && new.scroll_offset
            == old.scroll_offset + 1,
        Action::ScrollUp => new.same_but_screen(old) && new.screen == old.screen && new.scroll_offset
            == if old.scroll_offset > 0 {
            old.scroll_offset - 1
        } else {
            0
        },
        Action::ToggleHelp => new.same_but_screen(old) && new.scroll_offset == old.scroll_offset
            && new.screen == toggled(old.screen),
        Action::OpenLink(_) | Action::Nothing => new.same_but_screen(old) && new.screen == old.screen
            && new.scroll_offset == old.scroll_offset,
    }
}

/// The link that carrying out `action` on `app` opens, if any.
pub open spec fn opened_link(app: &App, action: Action) -> Option<Seq<char>> {
    match action {
        Action::OpenLink(idx) => if idx < app.posts@.len() {
            opt_view(app.posts@[idx as int].link)
        } else {
            None
        },
        _ => None,
    }
}

/// What pressing `key` asks of `app`.
pub fn key_action_of(app: &App, key: Key) -> (a: Action)
    ensures
        a == key_action(app.screen, app.selected, key),
{
    match &app.screen {
        Screen::Main => match key {
            Key::Char('q') => Action::Quit,
            Key::Char('j') | Key::Down => Action::MoveDown,
            Key::Char('k') | Key::Up => Action::MoveUp,
            Key::Char(' ') | Key::Enter => Action::OpenDetail,
            Key::Char('v') => Action::OpenLink(app.selected),
            Key::Char('?') => Action::ToggleHelp,
            _ => Action::Nothing,
        },
        Screen::Detail(idx) => match key {
            Key::Char('q') => Action::Quit,
            Key::Esc | Key::Char(' ') => Action::CloseDetail,
            Key::Char('j') | Key::Down => Action::ScrollDown,
            Key::Char('k') | Key::Up => Action::ScrollUp,
            Key::Char('v') => Action::OpenLink(*idx),
            Key::Char('?') => Action::ToggleHelp,
            _ => Action::Nothing,
        },
        Screen::Help => match key {
            Key::Char('?') | Key::Esc => Action::ToggleHelp,
            Key::Char('q') => Action::Quit,
            _ => Action::Nothing,
        },
        Screen::Loading(_) => Action::Nothing,
    }
}

/// Reacts to a key press with `visible_height` rows of the list on screen. Returns the
/// link to open in the browser, if the key asks for one.
pub fn handle_key(app: &mut App, key: Key, visible_height: usize) -> (link: Option<String>)
    requires
        key_action(old(app).screen, old(app).selected, key) == Action::MoveDown ==> old(app).selected
            < usize::MAX && (old(app).selected + 1 < old(app).posts@.len() ==> old(app).list_offset
            + visible_height <= usize::MAX),
        key_action(old(app).screen, old(app).selected, key) == Action::ScrollDown ==> old(app).scroll_offset
            < usize::MAX,
    ensures
        applied(old(app), final(app), key_action(old(app).screen, old(app).selected, key), visible_height),
        opt_view(link) == opened_link(old(app), key_action(old(app).screen, old(app).selected, key)),
{
    let action = key_action_of(app, key);
    match action {
        Action::Quit => {
            app.should_quit = true;
            None
        },
        Action::MoveDown => {
            app.move_down(visible_height);
            None
        },
        Action::MoveUp => {
            app.move_up();
            None
        },
        Action::OpenDetail => {
            app.open_detail();
            None
        },
        Action::CloseDetail => {
            app.close_detail();
            None
        },
        Action::ScrollDown => {
            app.scroll_down();
            None
        },
        Action::ScrollUp => {
            app.scroll_up();
            None
        },
        Action::OpenLink(idx) => app.link_at(idx),
        Action::ToggleHelp => {
            app.toggle_help();
            None
        },
        Action::Nothing => None,
    }
}

} // verus!

verus! {

/// Toggling help twice comes back to the list, or to the help.
pub proof fn law_toggle_help_twice(s: Screen)
    requires
        s == Screen::Main || s == Screen::Help,
    ensures
        toggled(toggled(s)) == s,
{
}

/// Moving down and then up comes back to the post that was selected, whenever there was a
/// post below it.
pub proof fn law_move_down_then_up(a0: &App, a1: &App, a2: &App, visible_height: usize)
    requires
        applied(a0, a1, Action::MoveDown, visible_height),
        applied(a1, a2, Action::MoveUp, visible_height),
        a0.selected + 1 < a0.posts@.len(),
    ensures
        a2.selected == a0.selected,
        a2.posts@ == a0.posts@,
        a2.screen == a0.screen,
{
}

/// Scrolling down and then up comes back to the same line.
pub proof fn law_scroll_down_then_up(a0: &App, a1: &App, a2: &App, visible_height: usize)
    requires
        applied(a0, a1, Action::ScrollDown, visible_height),
        applied(a1, a2, Action::ScrollUp, visible_height),
    ensures
        a2.scroll_offset == a0.scroll_offset,
        a2.selected == a0.selected,
        a2.screen == a0.screen,
{
}

/// Opening a post and going back leaves the list with the same post selected.
pub proof fn law_open_then_close(a0: &App, a1: &App, a2: &App, visible_height: usize)
    requires
        applied(a0, a1, Action::OpenDetail, visible_height),
        applied(a1, a2, Action::CloseDetail, visible_height),
    ensures
        a2.screen == Screen::Main,
        a2.selected == a0.selected,
        a2.list_offset == a0.list_offset,
{
}

/// Every action keeps the selection within the posts and the list at or before it, as
/// long as at least one row of the list is on screen.
pub proof fn law_actions_keep_wf(a0: &App, a1: &App, action: Action, visible_height: usize)
    requires
        a0.wf(),
        visible_height > 0,
        applied(a0, a1, action, visible_height),
    ensures
        a1.wf(),
{
}

/// Moving down keeps the selection among the rows on screen.
pub proof fn law_move_down_keeps_selection_visible(a0: &App, a1: &App, visible_height: usize)
    requires
        a0.selection_visible(visible_height),
        applied(a0, a1, Action::MoveDown, visible_height),
    ensures
        a1.selection_visible(visible_height),
{
}

/// While posts are loading, no key does anything.
pub proof fn law_loading_ignores_keys(msg: String, selected: usize, key: Key)
    ensures
        key_action(Screen::Loading(msg), selected, key) == Action::Nothing,
{
}

/// `q` quits from the list, from a post and from the help.
pub proof fn law_q_quits(s: Screen, selected: usize)
    requires
        !(s is Loading),
    ensures
        key_action(s, selected, Key::Char('q')) == Action::Quit,
{
}

/// The arrow keys do what `k` and `j` do, on every screen.
pub proof fn law_arrows_match_letters(screen: Screen, selected: usize)
    ensures
        key_action(screen, selected, Key::Up) == key_action(screen, selected, Key::Char('k')),
        key_action(screen, selected, Key::Down) == key_action(screen, selected, Key::Char('j')),
{
}

/// On the post list, `Up` (or `k`) selects the post above the selected one, and `Down`
/// (or `j`) the post below it, where there is one.
pub proof fn law_list_arrows_move_selection(a0: &App, a1: &App, a2: &App, visible_height: usize)
    requires
        a0.screen == Screen::Main,
        applied(a0, a1, key_action(a0.screen, a0.selected, Key::Up), visible_height),
        applied(a0, a2, key_action(a0.screen, a0.selected, Key::Down), visible_height),
    ensures
        a0.selected > 0 ==> a1.selected == a0.selected - 1,
        a0.selected + 1 < a0.posts@.len() ==> a2.selected == a0.selected + 1,
        a1.posts@ == a0.posts@ && a2.posts@ == a0.posts@,
{
}

} // verus!
