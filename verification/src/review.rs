//! The state of the review tool, in which the users of the store are looked
//! up by name and marked as scammers: its line of input, its list of users,
//! and what each key does to them. The terminal and the store are the
//! caller's.

use vstd::prelude::*;

verus! {

/// Whether the keys go to the list of users or to the line of input.
#[derive(Clone, Copy, Debug, PartialEq, Eq, Hash, Structural)]
pub enum InputMode {
    Select,
    Query,
}

/// A key of the keyboard, as far as the tool tells keys apart.
#[derive(Clone, Copy, Debug, PartialEq, Eq, Hash, Structural)]
pub enum Key {
    Char(char),
    Esc,
    Down,
    Up,
    Enter,
    Backspace,
    Left,
    Right,
    Other,
}

/// What the caller has to do once a key was handled.
#[derive(Clone, Copy, Debug, PartialEq, Eq, Hash, Structural)]
pub enum Command {
    /// Nothing but to draw the state again.
    Nothing,
    /// Leave the tool.
    Quit,
    /// Look up the users whose first name is like the line of input, and
    /// hand them to `set_users`.
    Search,
    /// Write the changes of `updates` to the store, then search again.
    Commit,
}

/// One user of the list.
#[derive(Clone, Copy, Debug, PartialEq, Eq, Hash, Structural)]
pub struct UserEntry {
    /// Whether the user is marked for a change.
    pub is_in_selection: bool,
    /// Whether the store knows the user as a scammer.
    pub is_scammer: bool,
    pub user_id: i64,
}

/// A change to the scammers of the store.
#[derive(Clone, Copy, Debug, PartialEq, Eq, Hash, Structural)]
pub enum ScammerUpdate {
    /// The user becomes known as a scammer.
    Add(i64),
    /// The user is a scammer no longer.
    Remove(i64),
}

/// The state of the tool.
#[derive(Clone, Debug, PartialEq, Eq)]
pub struct App {
    /// The line of input.
    pub input: Vec<char>,
    /// Position of the cursor in the line, counted in characters.
    pub cursor_position: usize,
    pub input_mode: InputMode,
    /// The users that the last search found.
    pub users: Vec<UserEntry>,
    /// Position of the highlighted user in the list, if one is highlighted.
    pub selected_user: Option<usize>,
}

/// The state of the tool as a value of mathematics.
pub struct AppView {
    pub input: Seq<char>,
    pub cursor_position: usize,
    pub input_mode: InputMode,
    pub users: Seq<UserEntry>,
    pub selected_user: Option<usize>,
}

impl View for App {
    type V = AppView;

    open spec fn view(&self) -> AppView {
        AppView {
            input: self.input@,
            cursor_position: self.cursor_position,
            input_mode: self.input_mode,
            users: self.users@,
            selected_user: self.selected_user,
        }
    }
}

/// The user with its mark turned over.
pub open spec fn toggled(user: UserEntry) -> UserEntry {
    UserEntry { is_in_selection: !user.is_in_selection, ..user }
}

/// The change that a user's mark asks for: a scammer is one no longer, and
/// any other user becomes one. A user without a mark is left alone.
pub open spec fn update_for(user: UserEntry) -> Option<ScammerUpdate> {
    if !user.is_in_selection {
        None
    } else if user.is_scammer {
        Some(ScammerUpdate::Remove(user.user_id))
    } else {
        Some(ScammerUpdate::Add(user.user_id))
    }
}

/// The changes that the marks of the users ask for, in the order of the list.
pub open spec fn updates_for(users: Seq<UserEntry>) -> Seq<ScammerUpdate>
    decreases users.len(),
{
    if users.len() == 0 {
        Seq::empty()
    } else {
        match update_for(users.last()) {
            Some(update) => updates_for(users.drop_last()).push(update),
            None => updates_for(users.drop_last()),
        }
    }
}

impl AppView {
    /// A position of the cursor, kept within the line.
    pub open spec fn clamp_cursor(self, position: usize) -> usize {
        if position > self.input.len() {
            self.input.len() as usize
        } else {
            position
        }
    }

    /// The state with the cursor one character to the left, if there is one.
    pub open spec fn move_cursor_left(self) -> AppView {
        let moved = if self.cursor_position == 0 {
            0
        } else {
            (self.cursor_position - 1) as usize
        };
        AppView { cursor_position: self.clamp_cursor(moved), ..self }
    }

    /// The state with the cursor one character to the right, if there is one.
    pub open spec fn move_cursor_right(self) -> AppView {
        let moved = if self.cursor_position == usize::MAX {
            usize::MAX
        } else {
            (self.cursor_position + 1) as usize
        };
        AppView { cursor_position: self.clamp_cursor(moved), ..self }
    }

    /// The state with a character put in at the cursor, and the cursor behind
    /// it.
    pub open spec fn enter_char(self, new_char: char) -> AppView {
        let at = self.clamp_cursor(self.cursor_position);
        (AppView { input: self.input.insert(at as int, new_char), cursor_position: at, ..self })
            .move_cursor_right()
    }

    /// The state with the character before the cursor taken out, and the
    /// cursor in its place. Nothing changes where the cursor is at the start.
    pub open spec fn delete_char(self) -> AppView {
        if self.cursor_position == 0 {
            self
        } else if self.cursor_position <= self.input.len() {
            (AppView { input: self.input.remove(self.cursor_position - 1), ..self }).move_cursor_left()
        } else {
            self.move_cursor_left()
        }
    }

    /// The state with the highlight on the next user, and on the first
    /// after the last. Nothing changes while the list is empty.
    pub open spec fn select_next(self) -> AppView {
        if self.users.len() == 0 {
            self
        } else {
            AppView {
                selected_user: Some(
                    match self.selected_user {
                        Some(i) => if i >= self.users.len() - 1 {
                            0
                        } else {
                            (i + 1) as usize
                        },
                        None => 0,
                    },
                ),
                ..self
            }
        }
    }

    /// The state with the highlight on the user before, and on the last
    /// before the first. Nothing changes while the list is empty.
    pub open spec fn select_previous(self) -> AppView {
        if self.users.len() == 0 {
            self
        } else {
            AppView {
                selected_user: Some(
                    match self.selected_user {
                        Some(i) => if i == 0 {
                            (self.users.len() - 1) as usize
                        } else {
                            (i - 1) as usize
                        },
                        None => (self.users.len() - 1) as usize,
                    },
                ),
                ..self
            }
        }
    }

    /// The state with the mark of the highlighted user turned over. Nothing
    /// changes where no user of the list is highlighted.
    pub open spec fn toggle_selected(self) -> AppView {
        match self.selected_user {
            Some(i) => if i < self.users.len() {
                AppView { users: self.users.update(i as int, toggled(self.users[i as int])), ..self }
            } else {
                self
            },
            None => self,
        }
    }

    /// The state after a key, which was `pressed` or else repeated or
    /// released. While the list has the keys, every key counts; while the
    /// line has them, only a pressed one does.
    pub open spec fn after_key(self, key: Key, pressed: bool) -> AppView {
        match self.input_mode {
            InputMode::Select => match key {
                Key::Char(c) => if c == 'e' {
                    AppView { input_mode: InputMode::Query, ..self }
                } else if c == ' ' {
                    self.toggle_selected()
                } else {
                    self
                },
                Key::Down => self.select_next(),
                Key::Up => self.select_previous(),
                _ => self,
            },
            InputMode::Query => if !pressed {
                self
            } else {
                match key {
                    Key::Enter => AppView { input_mode: InputMode::Select, ..self },
                    Key::Char(c) => self.enter_char(c),
                    Key::Backspace => self.delete_char(),
                    Key::Left => self.move_cursor_left(),
                    Key::Right => self.move_cursor_right(),
                    Key::Esc => AppView { input_mode: InputMode::Select, ..self },
                    _ => self,
                }
            },
        }
    }

    /// What the caller has to do after a key.
    pub open spec fn command_for(self, key: Key, pressed: bool) -> Command {
        match self.input_mode {
            InputMode::Select => match key {
                Key::Char(c) => if c == 'q' {
                    Command::Quit
                } else {
                    Command::Nothing
                },
                Key::Esc => Command::Quit,
                Key::Enter => Command::Commit,
                _ => Command::Nothing,
            },
            InputMode::Query => if pressed && key == Key::Enter {
                Command::Search
            } else {
                Command::Nothing
            },
        }
    }
}

impl App {
    /// The cursor of a well-formed state is within the line.
    pub open spec fn wf(&self) -> bool {
        self.cursor_position <= self.input@.len()
    }

    /// The state in which the tool starts: an empty line, an empty list, and
    /// the keys with the list.
    pub fn new() -> (app: App)
        ensures
            app@.input == Seq::<char>::empty(),
            app@.cursor_position == 0,
            app@.input_mode == InputMode::Select,
            app@.users == Seq::<UserEntry>::empty(),
            app@.selected_user is None,
            app.wf(),
    {
        App {
            input: Vec::new(),
            cursor_position: 0,
            input_mode: InputMode::Select,
            users: Vec::new(),
            selected_user: None,
        }
    }

    /// A position of the cursor, kept within the line.
    pub fn clamp_cursor(&self, new_cursor_pos: usize) -> (clamped: usize)
        ensures
            clamped == self@.clamp_cursor(new_cursor_pos),
            clamped <= self.input@.len(),
    {
        if new_cursor_pos > self.input.len() {
            self.input.len()
        } else {
            new_cursor_pos
        }
    }

    /// Moves the cursor one character to the left.
    pub fn move_cursor_left(&mut self)
        ensures
            final(self)@ == old(self)@.move_cursor_left(),
            final(self).wf(),
    {
        let cursor_moved_left = if self.cursor_position == 0 {
            0
        } else {
            self.cursor_position - 1
        };
        self.cursor_position = self.clamp_cursor(cursor_moved_left);
    }

    /// Moves the cursor one character to the right.
    pub fn move_cursor_right(&mut self)
        ensures
            final(self)@ == old(self)@.move_cursor_right(),
            final(self).wf(),
    {
        let cursor_moved_right = if self.cursor_position == usize::MAX {
            usize::MAX
        } else {
            self.cursor_position + 1
        };
        self.cursor_position = self.clamp_cursor(cursor_moved_right);
    }

    /// Puts a character in at the cursor, and the cursor behind it.
    pub fn enter_char(&mut self, new_char: char)
        ensures
            final(self)@ == old(self)@.enter_char(new_char),
            final(self).wf(),
    {
        let at = self.clamp_cursor(self.cursor_position);
        self.input.insert(at, new_char);
        self.cursor_position = at;
        self.move_cursor_right();
    }

    /// Takes out the character before the cursor.
    pub fn delete_char(&mut self)
        ensures
            final(self)@ == old(self)@.delete_char(),
            old(self).wf() ==> final(self).wf(),
    {
        let is_not_cursor_leftmost = self.cursor_position != 0;
        if is_not_cursor_leftmost {
            if self.cursor_position <= self.input.len() {
                self.input.remove(self.cursor_position - 1);
            }
            self.move_cursor_left();
        }
    }

    /// Moves the highlight to the next user of the list.
    pub fn select_next(&mut self)
        ensures
            final(self)@ == old(self)@.select_next(),
    {
        if self.users.len() > 0 {
            self.selected_user = Some(
                match self.selected_user {
                    Some(i) => if i >= self.users.len() - 1 {
                        0
                    } else {
                        i + 1
                    },
                    None => 0,
                },
            );
        }
    }

    /// Moves the highlight to the user before.
    pub fn select_previous(&mut self)
        ensures
            final(self)@ == old(self)@.select_previous(),
    {
        if self.users.len() > 0 {
            self.selected_user = Some(
                match self.selected_user {
                    Some(i) => if i == 0 {
                        self.users.len() - 1
                    } else {
                        i - 1
                    },
                    None => self.users.len() - 1,
                },
            );
        }
    }

    /// Turns over the mark of the highlighted user.
    pub fn toggle_selected(&mut self)
        ensures
            final(self)@ == old(self)@.toggle_selected(),
    {
        match self.selected_user {
            Some(i) => if i < self.users.len() {
                let user = self.users[i];
                self.users.set(i, UserEntry { is_in_selection: !user.is_in_selection, ..user });
            },
            None => {},
        }
    }

    /// Puts the users that a search found in the place of the list.
    pub fn set_users(&mut self, users: Vec<UserEntry>)
        ensures
            final(self)@ == (AppView { users: users@, ..old(self)@ }),
    {
        self.users = users;
    }

    /// Handles a key, which was `pressed` or else repeated or released, and
    /// says what is left for the caller to do.
    pub fn handle_key(&mut self, key: Key, pressed: bool) -> (command: Command)
        ensures
            final(self)@ == old(self)@.after_key(key, pressed),
            command == old(self)@.command_for(key, pressed),
            old(self).wf() ==> final(self).wf(),
    {
        match self.input_mode {
            InputMode::Select => match key {
                Key::Char(c) => {
                    if c == 'e' {
                        self.input_mode = InputMode::Query;
                        Command::Nothing
                    } else if c == 'q' {
                        Command::Quit
                    } else if c == ' ' {
                        self.toggle_selected();
                        Command::Nothing
                    } else {
                        Command::Nothing
                    }
                },
                Key::Esc => Command::Quit,
                Key::Down => {
                    self.select_next();
                    Command::Nothing
                },
                Key::Up => {
                    self.select_previous();
                    Command::Nothing
                },
                Key::Enter => Command::Commit,
                _ => Command::Nothing,
            },
            InputMode::Query => {
                if !pressed {
                    return Command::Nothing;
                }
                match key {
                    Key::Enter => {
                        self.input_mode = InputMode::Select;
                        Command::Search
                    },
                    Key::Char(to_insert) => {
                        self.enter_char(to_insert);
                        Command::Nothing
                    },
                    Key::Backspace => {
                        self.delete_char();
                        Command::Nothing
                    },
                    Key::Left => {
                        self.move_cursor_left();
                        Command::Nothing
                    },
                    Key::Right => {
                        self.move_cursor_right();
                        Command::Nothing
                    },
                    Key::Esc => {
                        self.input_mode = InputMode::Select;
                        Command::Nothing
                    },
                    _ => Command::Nothing,
                }
            },
        }
    }

    /// The changes to write to the store: one for each marked user.
    pub fn updates(&self) -> (changes: Vec<ScammerUpdate>)
        ensures
            changes@ == updates_for(self.users@),
    {
        let mut changes: Vec<ScammerUpdate> = Vec::new();
        let mut i: usize = 0;
        assert(self.users@.subrange(0, 0) =~= Seq::<UserEntry>::empty());
        while i < self.users.len()
            invariant
                i <= self.users.len(),
                changes@ == updates_for(self.users@.subrange(0, i as int)),
            decreases self.users.len() - i,
        {
            proof {
                let longer = self.users@.subrange(0, i + 1);
                assert(longer.drop_last() =~= self.users@.subrange(0, i as int));
                assert(longer.last() == self.users@[i as int]);
            }
            let user = self.users[i];
            if user.is_in_selection {
                if user.is_scammer {
                    changes.push(ScammerUpdate::Remove(user.user_id));
                } else {
                    changes.push(ScammerUpdate::Add(user.user_id));
                }
            }
            i = i + 1;
        }
        assert(self.users@.subrange(0, self.users.len() as int) =~= self.users@);
        changes
    }
}

/// Typing a character and deleting it again leaves the line as it was, with
/// the cursor where it was.
pub proof fn lemma_delete_undoes_enter(app: AppView, new_char: char)
    requires
        app.cursor_position <= app.input.len(),
        app.input.len() < usize::MAX,
    ensures
        app.enter_char(new_char).delete_char() == app,
{
    let entered = app.enter_char(new_char);
    assert(entered.input.remove(app.cursor_position as int) =~= app.input);
}

/// Moving the highlight down leads to a user of the list, and so does moving
/// it up, unless it was beyond the list before. Down and up again lead back
/// to the user that was highlighted.
pub proof fn lemma_selection_stays_in_the_list(app: AppView)
    requires
        app.users.len() > 0,
        app.users.len() <= usize::MAX,
    ensures
        app.select_next().selected_user matches Some(i) && i < app.users.len(),
        (app.selected_user matches Some(i) ==> i <= app.users.len()) ==> (
        app.select_previous().selected_user matches Some(i) && i < app.users.len()),
        (app.selected_user matches Some(i) && i < app.users.len()) ==> app.select_next().select_previous()
            == app,
{
}

/// Turning a mark over twice leaves the list as it was.
pub proof fn lemma_toggle_twice(app: AppView)
    ensures
        app.toggle_selected().toggle_selected() == app,
{
    match app.selected_user {
        Some(i) => if i < app.users.len() {
            assert(app.toggle_selected().toggle_selected().users =~= app.users);
        },
        None => {},
    }
}

} // verus!
