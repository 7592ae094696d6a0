//! The state of the interactive editor: the passphrase prompt, the list of
//! secrets with its selection, the overlaid dialogs and their fields, and
//! how each key press changes them. Drawing and the actions that touch the
//! locker belong to the caller.
use vstd::prelude::*;

use crate::store::SecretsStore;
use vstd::utf8::encode_utf8;
use crate::text::{
    pop_last_char, push_utf8, without_last_char,
    has_prefix, lower_of, lowercase, parse_u32, parse_u32_spec, pop_char, push_char, starts_with,
    text_eq, text_lt,
};

verus! {

/// The main mode of the editor.
#[derive(Debug, Clone, Copy, PartialEq, Eq, Structural)]
pub enum Mode {
    /// Typing the passphrase at startup.
    InitPassphrase,
    /// The list of secrets.
    Normal,
}

/// The dialog shown over the list, if any.
#[derive(Debug, Clone, Copy, PartialEq, Eq, Structural)]
pub enum Modal {
    /// No dialog.
    Closed,
    /// The form that adds a secret.
    AddSecret,
    /// Confirmation before deleting the selected secret.
    DeleteConfirm,
    /// The list of keys.
    Help,
    /// A `:` command with completion.
    Command,
}

/// The field of the add form that has the focus.
#[derive(Debug, Clone, Copy, PartialEq, Eq, Structural)]
pub enum Field {
    Name,
    Value,
    Expiration,
}

/// A key press, as far as the editor tells keys apart.
#[derive(Debug, Clone, Copy, PartialEq, Eq, Structural)]
pub enum Key {
    Char(char),
    Backspace,
    Tab,
    Enter,
    Esc,
    Up,
    Down,
    Other,
}

/// A place in a file where a secret's name occurs.
#[derive(Debug, Clone)]
pub struct TokenUsage {
    pub file_path: String,
    pub line_number: usize,
    pub line_content: String,
}

/// The commands of the `:` dialog with their descriptions.
pub open spec fn command_table() -> Seq<(Seq<char>, Seq<char>)> {
    seq![
        ("env"@, "Generate .env file with secrets in plain text"@),
        ("bash"@, "Export secrets to ~/.bashrc"@),
        ("zsh"@, "Export secrets to ~/.zshrc"@),
        ("fish"@, "Export secrets to ~/.config/fish/config.fish"@),
        ("json"@, "Export secrets as JSON file"@),
        ("clear"@, "Clear all shell exports from profile files"@),
    ]
}

/// The commands of the `:` dialog with their descriptions.
pub fn commands() -> (r: Vec<(&'static str, &'static str)>)
    ensures
        r@.len() == command_table().len(),
        forall|i: int|
            0 <= i < r@.len() ==> (#[trigger] r@[i]).0@ == command_table()[i].0 && r@[i].1@
                == command_table()[i].1,
{
    let mut v: Vec<(&'static str, &'static str)> = Vec::new();
    v.push(("env", "Generate .env file with secrets in plain text"));
    v.push(("bash", "Export secrets to ~/.bashrc"));
    v.push(("zsh", "Export secrets to ~/.zshrc"));
    v.push(("fish", "Export secrets to ~/.config/fish/config.fish"));
    v.push(("json", "Export secrets as JSON file"));
    v.push(("clear", "Clear all shell exports from profile files"));
    v
}

/// The commands whose name starts with `p`, in table order.
pub open spec fn matching_commands(t: Seq<(Seq<char>, Seq<char>)>, p: Seq<char>) -> Seq<
    (Seq<char>, Seq<char>),
>
    decreases t.len(),
{
    if t.len() == 0 {
        Seq::empty()
    } else if has_prefix(t.last().0, p) {
        matching_commands(t.drop_last(), p).push(t.last())
    } else {
        matching_commands(t.drop_last(), p)
    }
}

/// The views of (command, description) pairs.
pub open spec fn command_texts(v: Seq<(&str, &str)>) -> Seq<(Seq<char>, Seq<char>)> {
    v.map_values(|c: (&str, &str)| (c.0@, c.1@))
}

/// `a` and `b` agree but for the text of one field, which `pick` names.
pub open spec fn only_text_changed(a: App, b: App, pick: Field, t: Seq<char>) -> bool {
    match pick {
        Field::Name => b == (App { new_secret_name: b.new_secret_name, ..a }) && b.new_secret_name@ == t,
        Field::Value => b == (App { new_secret_value: b.new_secret_value, ..a }) && b.new_secret_value@
            == t,
        Field::Expiration => b == (App { new_secret_expiration: b.new_secret_expiration, ..a })
            && b.new_secret_expiration@ == t,
    }
}

/// The text of a field of the add form.
pub open spec fn field_text(a: App, f: Field) -> Seq<char> {
    match f {
        Field::Name => a.new_secret_name@,
        Field::Value => a.new_secret_value@,
        Field::Expiration => a.new_secret_expiration@,
    }
}

/// `s` without its last character, if it has one.
pub open spec fn backspaced(s: Seq<char>) -> Seq<char> {
    if s.len() == 0 {
        s
    } else {
        s.drop_last()
    }
}

/// `a` with its dialog closed and the revealed value hidden.
pub open spec fn closed(a: App) -> App {
    App { modal: Modal::Closed, revealed_secret: None, ..a }
}

/// What a key press does in the add form.
pub open spec fn add_form_key(a: App, b: App, key: Key) -> bool {
    match key {
        Key::Char(c) => if a.current_field == Field::Expiration && !('0' <= c && c <= '9') {
            b == a
        } else {
            only_text_changed(a, b, a.current_field, field_text(a, a.current_field).push(c))
        },
        Key::Backspace => only_text_changed(a, b, a.current_field, backspaced(field_text(a, a.current_field))),
        Key::Tab => b == (App {
            current_field: match a.current_field {
                Field::Name => Field::Value,
                Field::Value => Field::Expiration,
                Field::Expiration => Field::Name,
            },
            ..a
        }),
        Key::Enter => b == (App {
            current_field: match a.current_field {
                Field::Name => Field::Value,
                _ => Field::Expiration,
            },
            ..a
        }),
        Key::Esc => b == closed(a),
        _ => b == a,
    }
}

/// What a key press does in the command dialog.
pub open spec fn command_key(a: App, b: App, key: Key) -> bool {
    let n = matching_commands(command_table(), lower_of(a.command_input@)).len();
    match key {
        Key::Char(c) => b == (App { command_input: b.command_input, command_suggestion_index: 0, ..a })
            && b.command_input@ == a.command_input@.push(c),
        Key::Backspace => b == (App {
            command_input: b.command_input,
            command_suggestion_index: 0,
            ..a
        }) && b.command_input@ == backspaced(a.command_input@),
        Key::Tab | Key::Down => if n > 0 {
            b == (App {
                command_suggestion_index: ((a.command_suggestion_index + 1) % (n as int)) as usize,
                ..a
            })
        } else {
            b == a
        },
        Key::Up => if n > 0 {
            b == (App {
                command_suggestion_index: if a.command_suggestion_index == 0 {
                    (n - 1) as usize
                } else {
                    (a.command_suggestion_index - 1) as usize
                },
                ..a
            })
        } else {
            b == a
        },
        Key::Esc => b == closed(a),
        _ => b == a,
    }
}

/// What a key press does with no dialog open.
pub open spec fn main_key(a: App, b: App, key: Key) -> bool {
    match a.mode {
        Mode::InitPassphrase => match key {
            Key::Char(c) => b == (App { passphrase: b.passphrase, error_message: None, ..a })
                && b.passphrase@ == a.passphrase@ + encode_utf8(seq![c]),
            Key::Backspace => b == (App { passphrase: b.passphrase, error_message: None, ..a })
                && b.passphrase@ == without_last_char(a.passphrase@),
            Key::Esc => b == (App { should_quit: true, ..a }),
            _ => b == a,
        },
        Mode::Normal => match key {
            Key::Char('q') => b == (App { should_quit: true, ..a }),
            Key::Char('a') => b == (App {
                modal: Modal::AddSecret,
                new_secret_name: b.new_secret_name,
                new_secret_value: b.new_secret_value,
                new_secret_expiration: b.new_secret_expiration,
                current_field: Field::Name,
                ..a
            }) && b.new_secret_name@.len() == 0 && b.new_secret_value@.len() == 0
                && b.new_secret_expiration@.len() == 0,
            Key::Char('d') => if shown_names(a).len() > 0 {
                b == (App { modal: Modal::DeleteConfirm, ..a })
            } else {
                b == a
            },
            Key::Char('h') => b == (App { modal: Modal::Help, ..a }),
            Key::Char(':') => b == (App {
                modal: Modal::Command,
                command_input: b.command_input,
                command_suggestion_index: 0,
                ..a
            }) && b.command_input@.len() == 0,
            Key::Up => if a.selected_index > 0 {
                b == (App { selected_index: (a.selected_index - 1) as usize, revealed_secret: None, ..a })
            } else {
                b == a
            },
            Key::Down => if a.selected_index + 1 < shown_names(a).len() {
                b == (App { selected_index: (a.selected_index + 1) as usize, revealed_secret: None, ..a })
            } else {
                b == a
            },
            _ => b == a,
        },
    }
}

/// What a key press does to the editor; the keys that act on the locker
/// (confirming a form, revealing, copying) are the caller's and change
/// nothing here.
pub open spec fn key_effect(a: App, b: App, key: Key) -> bool {
    match a.modal {
        Modal::AddSecret => add_form_key(a, b, key),
        Modal::DeleteConfirm => if key == Key::Char('n') || key == Key::Esc {
            b == closed(a)
        } else {
            b == a
        },
        Modal::Help => if key == Key::Esc || key == Key::Char('h') || key == Key::Enter {
            b == closed(a)
        } else {
            b == a
        },
        Modal::Command => command_key(a, b, key),
        Modal::Closed => main_key(a, b, key),
    }
}

/// The editor's state.
pub struct App {
    pub should_quit: bool,
    pub initialized: bool,
    pub mode: Mode,
    pub modal: Modal,
    /// The passphrase typed so far.
    pub passphrase: Vec<u8>,
    pub error_message: Option<String>,
    pub secrets_store: Option<SecretsStore>,
    pub new_secret_name: String,
    pub new_secret_value: String,
    /// Days until expiry as typed; empty for a permanent secret.
    pub new_secret_expiration: String,
    pub current_field: Field,
    pub selected_index: usize,
    /// The decrypted value on display, if any.
    pub revealed_secret: Option<String>,
    /// Where the selected secret's name occurs in the working directory.
    pub token_usages: Vec<TokenUsage>,
    pub status_message: Option<String>,
    /// Whether secrets come from the agent rather than the store.
    pub agent_mode: bool,
    /// (name, value) pairs from the agent, sorted strictly by name.
    pub agent_secrets: Option<Vec<(String, String)>>,
    pub command_input: String,
    pub command_suggestion_index: usize,
}

/// Names strictly ascending.
pub open spec fn names_sorted(v: Seq<(String, String)>) -> bool {
    forall|i: int, j: int| 0 <= i < j < v.len() ==> text_lt(#[trigger] v[i].0@, #[trigger] v[j].0@)
}

/// The names of the secrets on display: from the agent when it supplied
/// them, else from the store, else none.
pub open spec fn shown_names(a: App) -> Seq<Seq<char>> {
    match a.agent_secrets {
        Some(v) => v@.map_values(|p: (String, String)| p.0@),
        None => match a.secrets_store {
            Some(s) => s.secrets@.map_values(|x: crate::store::Secret| x.name@),
            None => Seq::empty(),
        },
    }
}

impl Drop for App {
    /// The passphrase, the value being typed and the revealed value are
    /// scrubbed when the editor goes away.
    fn drop(&mut self)
        opens_invariants none
        no_unwind
    {
        crate::locker::scrub(&mut self.passphrase);
        crate::text::scrub_text(&mut self.new_secret_value);
        match &mut self.revealed_secret {
            Some(r) => crate::text::scrub_text(r),
            None => {},
        }
    }
}

impl App {
    /// The store, if loaded, is well formed, and the agent's pairs are
    /// sorted by name.
    pub open spec fn wf(&self) -> bool {
        &&& (self.secrets_store matches Some(s) ==> s.wf())
        &&& (self.agent_secrets matches Some(v) ==> names_sorted(v@))
    }

    /// A fresh editor: nothing loaded, no dialog, the list view.
    pub fn new() -> (r: Self)
        ensures
            r.wf(),
            !r.should_quit,
            !r.initialized,
            r.mode == Mode::Normal,
            r.modal == Modal::Closed,
            r.passphrase@.len() == 0,
            r.error_message is None,
            r.secrets_store is None,
            r.new_secret_name@.len() == 0,
            r.new_secret_value@.len() == 0,
            r.new_secret_expiration@.len() == 0,
            r.current_field == Field::Name,
            r.selected_index == 0,
            r.revealed_secret is None,
            r.token_usages@.len() == 0,
            r.status_message is None,
            !r.agent_mode,
            r.agent_secrets is None,
            r.command_input@.len() == 0,
            r.command_suggestion_index == 0,
    {
        App {
            should_quit: false,
            initialized: false,
            mode: Mode::Normal,
            modal: Modal::Closed,
            passphrase: Vec::new(),
            error_message: None,
            secrets_store: None,
            new_secret_name: String::new(),
            new_secret_value: String::new(),
            new_secret_expiration: String::new(),
            current_field: Field::Name,
            selected_index: 0,
            revealed_secret: None,
            token_usages: Vec::new(),
            status_message: None,
            agent_mode: false,
            agent_secrets: None,
            command_input: String::new(),
            command_suggestion_index: 0,
        }
    }

    /// Asks the editor to close.
    pub fn quit(&mut self)
        ensures
            *final(self) == (App { should_quit: true, ..*old(self) }),
    {
        self.should_quit = true;
    }

    /// Switches to the passphrase prompt, clearing any error.
    pub fn enter_init_mode(&mut self)
        ensures
            *final(self) == (App { mode: Mode::InitPassphrase, error_message: None, ..*old(self) }),
    {
        self.mode = Mode::InitPassphrase;
        self.error_message = None;
    }

    /// Opens the add form with empty fields and the focus on the name.
    pub fn open_add_modal(&mut self)
        ensures
            final(self).modal == Modal::AddSecret,
            final(self).new_secret_name@.len() == 0,
            final(self).new_secret_value@.len() == 0,
            final(self).new_secret_expiration@.len() == 0,
            final(self).current_field == Field::Name,
            *final(self) == (App {
                modal: final(self).modal,
                new_secret_name: final(self).new_secret_name,
                new_secret_value: final(self).new_secret_value,
                new_secret_expiration: final(self).new_secret_expiration,
                current_field: final(self).current_field,
                ..*old(self)
            }),
    {
        self.modal = Modal::AddSecret;
        self.new_secret_name = String::new();
        self.new_secret_value = String::new();
        self.new_secret_expiration = String::new();
        self.current_field = Field::Name;
    }

    /// Opens the delete confirmation.
    pub fn open_delete_modal(&mut self)
        ensures
            *final(self) == (App { modal: Modal::DeleteConfirm, ..*old(self) }),
    {
        self.modal = Modal::DeleteConfirm;
    }

    /// Opens the help.
    pub fn open_help_modal(&mut self)
        ensures
            *final(self) == (App { modal: Modal::Help, ..*old(self) }),
    {
        self.modal = Modal::Help;
    }

    /// Opens the command dialog with an empty input and the first
    /// suggestion selected.
    pub fn open_command_modal(&mut self)
        ensures
            final(self).modal == Modal::Command,
            final(self).command_input@.len() == 0,
            *final(self) == (App {
                modal: Modal::Command,
                command_input: final(self).command_input,
                command_suggestion_index: 0,
                ..*old(self)
            }),
    {
        self.modal = Modal::Command;
        self.command_input = String::new();
        self.command_suggestion_index = 0;
    }

    /// The commands whose name starts with the input, lowercased.
    pub fn get_command_suggestions(&self) -> (r: Vec<(&'static str, &'static str)>)
        ensures
            command_texts(r@) == matching_commands(command_table(), lower_of(self.command_input@)),
    {
        let input = lowercase(self.command_input.as_str());
        let all = commands();
        let mut out: Vec<(&'static str, &'static str)> = Vec::new();
        let mut i: usize = 0;
        proof {
            assert(command_table().take(0) =~= Seq::<(Seq<char>, Seq<char>)>::empty());
            assert(command_texts(out@) =~= Seq::<(Seq<char>, Seq<char>)>::empty());
        }
        while i < all.len()
            invariant
                i <= all@.len(),
                all@.len() == command_table().len(),
                forall|j: int|
                    0 <= j < all@.len() ==> (#[trigger] all@[j]).0@ == command_table()[j].0
                        && all@[j].1@ == command_table()[j].1,
                input@ == lower_of(self.command_input@),
                command_texts(out@) == matching_commands(command_table().take(i as int), input@),
            decreases all@.len() - i,
        {
            proof {
                assert(command_table().take(i + 1).drop_last() == command_table().take(i as int));
                assert(command_table().take(i + 1).last() == command_table()[i as int]);
            }
            let c = all[i];
            if starts_with(c.0, input.as_str()) {
                let ghost before = command_texts(out@);
                out.push(c);
                proof {
                    assert(command_texts(out@) =~= before.push((c.0@, c.1@)));
                }
            }
            i = i + 1;
        }
        proof {
            assert(command_table().take(all@.len() as int) == command_table());
        }
        out
    }

    /// The name of the selected suggestion, if the selection is in range.
    pub fn get_selected_command(&self) -> (r: Option<&'static str>)
        ensures
            ({
                let m = matching_commands(command_table(), lower_of(self.command_input@));
                if self.command_suggestion_index < m.len() {
                    r matches Some(c) && c@ == m[self.command_suggestion_index as int].0
                } else {
                    r is None
                }
            }),
    {
        let suggestions = self.get_command_suggestions();
        if self.command_suggestion_index < suggestions.len() {
            let c = suggestions[self.command_suggestion_index];
            proof {
                assert(command_texts(suggestions@)[self.command_suggestion_index as int].0 == c.0@);
            }
            Some(c.0)
        } else {
            None
        }
    }

    /// Closes any dialog and hides the revealed value.
    pub fn close_modal(&mut self)
        ensures
            *final(self) == (App { modal: Modal::Closed, revealed_secret: None, ..*old(self) }),
    {
        self.modal = Modal::Closed;
        self.revealed_secret = None;
    }

    /// Shows an error.
    pub fn set_error(&mut self, msg: String)
        ensures
            *final(self) == (App { error_message: Some(msg), ..*old(self) }),
    {
        self.error_message = Some(msg);
    }

    /// Clears the error.
    pub fn clear_error(&mut self)
        ensures
            *final(self) == (App { error_message: None, ..*old(self) }),
    {
        self.error_message = None;
    }

    /// Shows a status message.
    pub fn set_status(&mut self, msg: String)
        ensures
            *final(self) == (App { status_message: Some(msg), ..*old(self) }),
    {
        self.status_message = Some(msg);
    }

    /// Clears the status message.
    pub fn clear_status(&mut self)
        ensures
            *final(self) == (App { status_message: None, ..*old(self) }),
    {
        self.status_message = None;
    }

    /// The names of the secrets on display, sorted.
    pub fn get_secret_names(&self) -> (r: Vec<String>)
        requires
            self.wf(),
        ensures
            r@.len() == shown_names(*self).len(),
            forall|i: int| 0 <= i < r@.len() ==> (#[trigger] r@[i])@ == shown_names(*self)[i],
    {
        let mut out: Vec<String> = Vec::new();
        match &self.agent_secrets {
            Some(v) => {
                let mut i: usize = 0;
                while i < v.len()
                    invariant
                        self.agent_secrets == Some(*v),
                        i <= v@.len(),
                        out@.len() == i,
                        forall|j: int| 0 <= j < i ==> (#[trigger] out@[j])@ == v@[j].0@,
                    decreases v@.len() - i,
                {
                    out.push(v[i].0.clone());
                    i = i + 1;
                }
            },
            None => match &self.secrets_store {
                Some(s) => {
                    let mut i: usize = 0;
                    while i < s.secrets.len()
                        invariant
                            self.agent_secrets is None,
                            self.secrets_store == Some(*s),
                            i <= s.secrets@.len(),
                            out@.len() == i,
                            forall|j: int| 0 <= j < i ==> (#[trigger] out@[j])@ == s.secrets@[j].name@,
                        decreases s.secrets@.len() - i,
                    {
                        out.push(s.secrets[i].name.clone());
                        i = i + 1;
                    }
                },
                None => {},
            },
        }
        out
    }

    /// How many secrets are on display.
    pub fn secrets_count(&self) -> (r: usize)
        ensures
            r == shown_names(*self).len(),
    {
        match &self.agent_secrets {
            Some(v) => v.len(),
            None => match &self.secrets_store {
                Some(s) => s.secrets.len(),
                None => 0,
            },
        }
    }

    /// The name of the selected secret, if the selection is in range.
    pub fn get_selected_secret_name(&self) -> (r: Option<String>)
        requires
            self.wf(),
        ensures
            self.selected_index < shown_names(*self).len() ==> (r matches Some(n) && n@ == shown_names(
                *self,
            )[self.selected_index as int]),
            self.selected_index >= shown_names(*self).len() ==> r is None,
    {
        let names = self.get_secret_names();
        if self.selected_index < names.len() {
            Some(names[self.selected_index].clone())
        } else {
            None
        }
    }

    /// The agent's value for `name`, if it supplied one.
    pub fn get_agent_secret_value(&self, name: &str) -> (r: Option<String>)
        requires
            self.wf(),
        ensures
            self.agent_secrets is None ==> r is None,
            self.agent_secrets is Some ==> (r is Some <==> exists|i: int|
                0 <= i < self.agent_secrets->Some_0@.len() && (
                #[trigger] self.agent_secrets->Some_0@[i]).0@ == name@),
            r matches Some(x) ==> exists|i: int|
                0 <= i < self.agent_secrets->Some_0@.len() && (
                #[trigger] self.agent_secrets->Some_0@[i]).0@ == name@
                    && self.agent_secrets->Some_0@[i].1@ == x@,
    {
        match &self.agent_secrets {
            None => None,
            Some(v) => {
                let mut i: usize = 0;
                while i < v.len()
                    invariant
                        self.agent_secrets == Some(*v),
                        i <= v@.len(),
                        forall|j: int| 0 <= j < i ==> (#[trigger] v@[j]).0@ != name@,
                    decreases v@.len() - i,
                {
                    if text_eq(v[i].0.as_str(), name) {
                        let x = v[i].1.clone();
                        proof {
                            assert(0 <= i < v@.len() && v@[i as int].0@ == name@ && v@[i as int].1@ == x@);
                            assert(self.agent_secrets->Some_0@[i as int] == v@[i as int]);
                        }
                        return Some(x);
                    }
                    i = i + 1;
                }
                None
            },
        }
    }

    /// Moves the selection up one row, hiding the revealed value.
    pub fn move_selection_up(&mut self)
        ensures
            old(self).selected_index > 0 ==> *final(self) == (App {
                selected_index: (old(self).selected_index - 1) as usize,
                revealed_secret: None,
                ..*old(self)
            }),
            old(self).selected_index == 0 ==> *final(self) == *old(self),
    {
        if self.selected_index > 0 {
            self.selected_index = self.selected_index - 1;
            self.revealed_secret = None;
        }
    }

    /// Moves the selection down one row, if there is one, hiding the
    /// revealed value.
    pub fn move_selection_down(&mut self)
        ensures
            old(self).selected_index + 1 < shown_names(*old(self)).len() ==> *final(self) == (App {
                selected_index: (old(self).selected_index + 1) as usize,
                revealed_secret: None,
                ..*old(self)
            }),
            old(self).selected_index + 1 >= shown_names(*old(self)).len() ==> *final(self) == *old(
                self,
            ),
    {
        let count = self.secrets_count();
        if count > 0 && self.selected_index < count - 1 {
            self.selected_index = self.selected_index + 1;
            self.revealed_secret = None;
        }
    }

    /// The days typed in the expiry field: none when empty or not a number.
    pub fn get_expiration_days(&self) -> (r: Option<u32>)
        ensures
            self.new_secret_expiration@.len() == 0 ==> r is None,
            self.new_secret_expiration@.len() > 0 ==> r == parse_u32_spec(self.new_secret_expiration@),
    {
        if self.new_secret_expiration.as_str().is_empty() {
            None
        } else {
            parse_u32(self.new_secret_expiration.as_str())
        }
    }

    /// Why the add form cannot be submitted yet: a name and a value are
    /// required.
    pub fn add_form_error(&self) -> (r: Option<&'static str>)
        ensures
            self.new_secret_name@.len() == 0 ==> (r matches Some(m) && m@ == "Name is required"@),
            self.new_secret_name@.len() > 0 && self.new_secret_value@.len() == 0 ==> (r matches Some(
                m,
            ) && m@ == "Value is required"@),
            self.new_secret_name@.len() > 0 && self.new_secret_value@.len() > 0 ==> r is None,
    {
        if self.new_secret_name.as_str().is_empty() {
            Some("Name is required")
        } else if self.new_secret_value.as_str().is_empty() {
            Some("Value is required")
        } else {
            None
        }
    }

    /// After the list shrank, moves a selection past its end to the last
    /// row.
    pub fn clamp_selection(&mut self)
        ensures
            shown_names(*old(self)).len() > 0 && old(self).selected_index >= shown_names(
                *old(self),
            ).len() ==> *final(self) == (App {
                selected_index: (shown_names(*old(self)).len() - 1) as usize,
                ..*old(self)
            }),
            !(shown_names(*old(self)).len() > 0 && old(self).selected_index >= shown_names(
                *old(self),
            ).len()) ==> *final(self) == *old(self),
    {
        let count = self.secrets_count();
        if count > 0 && self.selected_index >= count {
            self.selected_index = count - 1;
        }
    }

    /// Records where the selected secret's name occurs, as found by the
    /// caller; with nothing selected the list is emptied.
    pub fn update_token_usages(&mut self, found: Vec<TokenUsage>)
        requires
            old(self).wf(),
        ensures
            old(self).selected_index < shown_names(*old(self)).len() ==> *final(self) == (App {
                token_usages: found,
                ..*old(self)
            }),
            old(self).selected_index >= shown_names(*old(self)).len() ==> final(self).token_usages@.len()
                == 0 && *final(self) == (App { token_usages: final(self).token_usages, ..*old(self) }),
    {
        if self.get_selected_secret_name().is_some() {
            self.token_usages = found;
        } else {
            self.token_usages = Vec::new();
        }
    }

    fn push_to_field(&mut self, c: char)
        ensures
            only_text_changed(*old(self), *final(self), old(self).current_field, field_text(*old(self), old(self).current_field).push(c)),
    {
        match self.current_field {
            Field::Name => push_char(&mut self.new_secret_name, c),
            Field::Value => push_char(&mut self.new_secret_value, c),
            Field::Expiration => push_char(&mut self.new_secret_expiration, c),
        }
    }

    fn pop_from_field(&mut self)
        ensures
            only_text_changed(*old(self), *final(self), old(self).current_field, backspaced(field_text(*old(self), old(self).current_field))),
    {
        match self.current_field {
            Field::Name => {
                pop_char(&mut self.new_secret_name);
            },
            Field::Value => {
                pop_char(&mut self.new_secret_value);
            },
            Field::Expiration => {
                pop_char(&mut self.new_secret_expiration);
            },
        }
    }

    /// Applies one key press.
    pub fn handle_key(&mut self, key: Key)
        requires
            old(self).wf(),
        ensures
            key_effect(*old(self), *final(self), key),
    {
        match self.modal {
            Modal::AddSecret => {
                match key {
                    Key::Char(c) => {
                        if self.current_field != Field::Expiration || ('0' <= c && c <= '9') {
                            self.push_to_field(c);
                        }
                    },
                    Key::Backspace => self.pop_from_field(),
                    Key::Tab => {
                        self.current_field = match self.current_field {
                            Field::Name => Field::Value,
                            Field::Value => Field::Expiration,
                            Field::Expiration => Field::Name,
                        };
                    },
                    Key::Enter => {
                        match self.current_field {
                            Field::Name => self.current_field = Field::Value,
                            Field::Value => self.current_field = Field::Expiration,
                            Field::Expiration => {},
                        }
                    },
                    Key::Esc => self.close_modal(),
                    _ => {},
                }
            },
            Modal::DeleteConfirm => {
                match key {
                    Key::Char('n') | Key::Esc => self.close_modal(),
                    _ => {},
                }
            },
            Modal::Help => {
                match key {
                    Key::Esc | Key::Char('h') | Key::Enter => self.close_modal(),
                    _ => {},
                }
            },
            Modal::Command => {
                match key {
                    Key::Char(c) => {
                        push_char(&mut self.command_input, c);
                        self.command_suggestion_index = 0;
                    },
                    Key::Backspace => {
                        pop_char(&mut self.command_input);
                        self.command_suggestion_index = 0;
                    },
                    Key::Tab | Key::Down => {
                        let n = self.get_command_suggestions().len();
                        if n > 0 {
                            let next: u128 = ((self.command_suggestion_index as u128) + 1) % (n as u128);
                            self.command_suggestion_index = next as usize;
                        }
                    },
                    Key::Up => {
                        let n = self.get_command_suggestions().len();
                        if n > 0 {
                            self.command_suggestion_index = if self.command_suggestion_index == 0 {
                                n - 1
                            } else {
                                self.command_suggestion_index - 1
                            };
                        }
                    },
                    Key::Esc => self.close_modal(),
                    _ => {},
                }
            },
            Modal::Closed => {
                match self.mode {
                    Mode::InitPassphrase => match key {
                        Key::Char(c) => {
                            push_utf8(&mut self.passphrase, c);
                            self.error_message = None;
                        },
                        Key::Backspace => {
                            pop_last_char(&mut self.passphrase);
                            self.error_message = None;
                        },
                        Key::Esc => self.quit(),
                        _ => {},
                    },
                    Mode::Normal => match key {
                        Key::Char('q') => self.quit(),
                        Key::Char('a') => self.open_add_modal(),
                        Key::Char('d') => {
                            if self.secrets_count() > 0 {
                                self.open_delete_modal();
                            }
                        },
                        Key::Char('h') => self.open_help_modal(),
                        Key::Char(':') => self.open_command_modal(),
                        Key::Up => self.move_selection_up(),
                        Key::Down => self.move_selection_down(),
                        _ => {},
                    },
                }
            },
        }
    }
}

} // verus!
