//! The connection form and the master password form: which fields they
//! show, how focus moves, how typing edits them, and what they produce.
use vstd::prelude::*;

use crate::model::{
    AuthConfig, AuthKind, ConnectionConfig, Field, KeyCandidate, MasterField, TryResult,
    copy_opt_string,
};
use crate::keys::{Key, KeyPress};
use crate::text::{blank, from_chars, is_blank, to_chars, trim_text, trimmed};

verus! {

/// A change typed into a text field.
#[derive(Debug, Clone, Copy, PartialEq, Eq, Structural)]
pub enum EditAction {
    Insert(char),
    Backspace,
}

/// The text after an edit: a character added at the end, or the last one
/// removed (nothing where it is empty).
pub open spec fn edited(text: Seq<char>, action: EditAction) -> Seq<char> {
    match action {
        EditAction::Insert(c) => text.push(c),
        EditAction::Backspace => if text.len() == 0 {
            text
        } else {
            text.drop_last()
        },
    }
}

/// Applies an edit to a text field.
pub fn apply_edit(text: &mut String, action: EditAction)
    ensures
        final(text)@ == edited(old(text)@, action),
{
    let mut chars = to_chars(text.as_str());
    match action {
        EditAction::Insert(c) => {
            chars.push(c);
        },
        EditAction::Backspace => {
            if chars.len() > 0 {
                chars.pop();
            }
        },
    }
    *text = from_chars(chars.as_slice());
}

/// The state of the connection form.
#[derive(Debug, Clone)]
pub struct NewConnectionState {
    pub name: String,
    pub user: String,
    pub host: String,
    pub auth_kind: AuthKind,
    pub key_path: String,
    pub password: String,
    pub active_field: Field,
}

impl Default for NewConnectionState {
    fn default() -> (r: Self)
        ensures
            r.name@.len() == 0,
            r.user@.len() == 0,
            r.host@.len() == 0,
            r.key_path@.len() == 0,
            r.password@.len() == 0,
            r.auth_kind == AuthKind::PasswordOnly,
            r.active_field == Field::User,
    {
        NewConnectionState {
            name: String::new(),
            user: String::new(),
            host: String::new(),
            auth_kind: AuthKind::PasswordOnly,
            key_path: String::new(),
            password: String::new(),
            active_field: Field::User,
        }
    }
}

/// The fields the form shows for an authentication choice, in order.
pub open spec fn fields_for(kind: AuthKind) -> Seq<Field> {
    let head = seq![Field::Name, Field::User, Field::Host, Field::AuthType];
    let middle = match kind {
        AuthKind::PasswordOnly => seq![Field::Password],
        AuthKind::PrivateKey => seq![Field::KeyPath],
        AuthKind::PrivateKeyWithPassword => seq![Field::KeyPath, Field::Password],
    };
    head + middle + seq![Field::ActionTest, Field::ActionSave]
}

/// The field focus moves to from position `pos` of `fields`.
pub open spec fn next_position(pos: int, len: int, forward: bool) -> int {
    if forward {
        (pos + 1) % len
    } else if pos == 0 {
        len - 1
    } else {
        pos - 1
    }
}

/// The field the focus moves to from `active`: the next one shown (or the
/// previous one), wrapping around; a field the form does not show keeps it.
pub open spec fn advanced_field(kind: AuthKind, active: Field, forward: bool) -> Field {
    let fields = fields_for(kind);
    if fields.contains(active) {
        fields[next_position(fields.index_of(active), fields.len() as int, forward)]
    } else {
        active
    }
}

/// Why the form cannot make a connection.
#[derive(Debug, Clone, Copy, PartialEq, Eq, Structural)]
pub enum FormError {
    UserRequired,
    HostRequired,
    PasswordRequired,
    KeyPathRequired,
    KeyPasswordRequired,
}

/// The words that report a form error.
pub open spec fn form_error_text(e: FormError) -> Seq<char> {
    match e {
        FormError::UserRequired => "User is required"@,
        FormError::HostRequired => "Host is required"@,
        FormError::PasswordRequired => "Password is required"@,
        FormError::KeyPathRequired => "Private key path is required"@,
        FormError::KeyPasswordRequired => "Key password is required"@,
    }
}

impl FormError {
    /// The words that report this error.
    pub fn message(&self) -> (r: &'static str)
        ensures
            r@ == form_error_text(*self),
    {
        match self {
            FormError::UserRequired => "User is required",
            FormError::HostRequired => "Host is required",
            FormError::PasswordRequired => "Password is required",
            FormError::KeyPathRequired => "Private key path is required",
            FormError::KeyPasswordRequired => "Key password is required",
        }
    }
}

/// The choice the left and right arrows move to from `kind`.
pub open spec fn cycled_auth(kind: AuthKind, right: bool) -> AuthKind {
    match (kind, right) {
        (AuthKind::PasswordOnly, true) => AuthKind::PrivateKey,
        (AuthKind::PrivateKey, true) => AuthKind::PrivateKeyWithPassword,
        (AuthKind::PrivateKeyWithPassword, true) => AuthKind::PasswordOnly,
        (AuthKind::PasswordOnly, false) => AuthKind::PrivateKeyWithPassword,
        (AuthKind::PrivateKey, false) => AuthKind::PasswordOnly,
        (AuthKind::PrivateKeyWithPassword, false) => AuthKind::PrivateKey,
    }
}

/// What the form checks before it makes a connection, in order.
pub open spec fn form_check(user: Seq<char>, host: Seq<char>, kind: AuthKind, key_path: Seq<char>, password: Seq<char>) -> Result<(), FormError> {
    if is_blank(user) {
        Err(FormError::UserRequired)
    } else if is_blank(host) {
        Err(FormError::HostRequired)
    } else {
        match kind {
            AuthKind::PasswordOnly => if password.len() == 0 {
                Err(FormError::PasswordRequired)
            } else {
                Ok(())
            },
            AuthKind::PrivateKey => if is_blank(key_path) {
                Err(FormError::KeyPathRequired)
            } else {
                Ok(())
            },
            AuthKind::PrivateKeyWithPassword => if is_blank(key_path) {
                Err(FormError::KeyPathRequired)
            } else if password.len() == 0 {
                Err(FormError::KeyPasswordRequired)
            } else {
                Ok(())
            },
        }
    }
}

/// No field is shown twice.
proof fn lemma_fields_distinct(kind: AuthKind, i: int, j: int)
    requires
        0 <= i < fields_for(kind).len(),
        0 <= j < fields_for(kind).len(),
        fields_for(kind)[i] == fields_for(kind)[j],
    ensures
        i == j,
{
    let f = fields_for(kind);
    assert(f[0] == Field::Name && f[1] == Field::User && f[2] == Field::Host && f[3] == Field::AuthType);
    match kind {
        AuthKind::PasswordOnly => {
            assert(f[4] == Field::Password && f[5] == Field::ActionTest && f[6] == Field::ActionSave);
        },
        AuthKind::PrivateKey => {
            assert(f[4] == Field::KeyPath && f[5] == Field::ActionTest && f[6] == Field::ActionSave);
        },
        AuthKind::PrivateKeyWithPassword => {
            assert(f[4] == Field::KeyPath && f[5] == Field::Password && f[6] == Field::ActionTest
                && f[7] == Field::ActionSave);
        },
    }
}

impl NewConnectionState {
    /// The fields the form shows, in order.
    pub fn active_fields(&self) -> (r: Vec<Field>)
        ensures
            r@ == fields_for(self.auth_kind),
    {
        let mut fields: Vec<Field> = Vec::new();
        fields.push(Field::Name);
        fields.push(Field::User);
        fields.push(Field::Host);
        fields.push(Field::AuthType);
        match self.auth_kind {
            AuthKind::PasswordOnly => {
                fields.push(Field::Password);
            },
            AuthKind::PrivateKey => {
                fields.push(Field::KeyPath);
            },
            AuthKind::PrivateKeyWithPassword => {
                fields.push(Field::KeyPath);
                fields.push(Field::Password);
            },
        }
        fields.push(Field::ActionTest);
        fields.push(Field::ActionSave);
        assert(fields@ =~= fields_for(self.auth_kind));
        fields
    }

    /// Moves the focus to the next field (or the previous one), wrapping
    /// around; a focus on a field the form does not show stays.
    pub fn advance_field(&mut self, forward: bool)
        ensures
            final(self).active_field == advanced_field(old(self).auth_kind, old(self).active_field, forward),
            final(self).auth_kind == old(self).auth_kind,
            final(self).name == old(self).name,
            final(self).user == old(self).user,
            final(self).host == old(self).host,
            final(self).key_path == old(self).key_path,
            final(self).password == old(self).password,
    {
        let fields = self.active_fields();
        let mut pos: usize = 0;
        while pos < fields.len() && fields[pos] != self.active_field
            invariant
                pos <= fields.len(),
                fields@ == fields_for(self.auth_kind),
                forall|k: int| 0 <= k < pos ==> fields@[k] != self.active_field,
            decreases fields.len() - pos,
        {
            pos = pos + 1;
        }
        if pos == fields.len() {
            assert(!fields@.contains(self.active_field));
            return;
        }
        let next = if forward {
            (pos + 1) % fields.len()
        } else if pos == 0 {
            fields.len() - 1
        } else {
            pos - 1
        };
        assert(fields@.index_of(self.active_field) == pos as int) by {
            assert(fields@[pos as int] == self.active_field);
            let i = fields@.index_of(self.active_field);
            assert(0 <= i < fields@.len() && fields@[i] == self.active_field);
            lemma_fields_distinct(self.auth_kind, i, pos as int);
        }
        self.active_field = fields[next];
    }

    /// Applies an edit to the focused text field; the choice and the
    /// buttons take none.
    pub fn edit_active_field(&mut self, action: EditAction)
        ensures
            final(self).name@ == if old(self).active_field == Field::Name {
                edited(old(self).name@, action)
            } else {
                old(self).name@
            },
            final(self).user@ == if old(self).active_field == Field::User {
                edited(old(self).user@, action)
            } else {
                old(self).user@
            },
            final(self).host@ == if old(self).active_field == Field::Host {
                edited(old(self).host@, action)
            } else {
                old(self).host@
            },
            final(self).key_path@ == if old(self).active_field == Field::KeyPath {
                edited(old(self).key_path@, action)
            } else {
                old(self).key_path@
            },
            final(self).password@ == if old(self).active_field == Field::Password {
                edited(old(self).password@, action)
            } else {
                old(self).password@
            },
            final(self).auth_kind == old(self).auth_kind,
            final(self).active_field == old(self).active_field,
    {
        match self.active_field {
            Field::Name => apply_edit(&mut self.name, action),
            Field::User => apply_edit(&mut self.user, action),
            Field::Host => apply_edit(&mut self.host, action),
            Field::KeyPath => apply_edit(&mut self.key_path, action),
            Field::Password => apply_edit(&mut self.password, action),
            _ => {},
        }
    }

    /// Moves the authentication choice left or right, wrapping around.
    pub fn cycle_auth_kind(&mut self, right: bool)
        ensures
            final(self).auth_kind == cycled_auth(old(self).auth_kind, right),
            final(self).active_field == old(self).active_field,
            final(self).name == old(self).name,
            final(self).user == old(self).user,
            final(self).host == old(self).host,
            final(self).key_path == old(self).key_path,
            final(self).password == old(self).password,
    {
        self.auth_kind = match (self.auth_kind, right) {
            (AuthKind::PasswordOnly, true) => AuthKind::PrivateKey,
            (AuthKind::PrivateKey, true) => AuthKind::PrivateKeyWithPassword,
            (AuthKind::PrivateKeyWithPassword, true) => AuthKind::PasswordOnly,
            (AuthKind::PasswordOnly, false) => AuthKind::PrivateKeyWithPassword,
            (AuthKind::PrivateKey, false) => AuthKind::PasswordOnly,
            (AuthKind::PrivateKeyWithPassword, false) => AuthKind::PrivateKey,
        };
    }

    /// Takes a key offered for reuse: its path, and its password (switching
    /// to key with password) where it has one.
    pub fn apply_key_candidate(&mut self, candidate: &KeyCandidate)
        ensures
            final(self).key_path@ == candidate.path@,
            candidate.password matches Some(p) ==> final(self).password@ == p@
                && final(self).auth_kind == AuthKind::PrivateKeyWithPassword,
            candidate.password is None ==> final(self).password == old(self).password
                && final(self).auth_kind == old(self).auth_kind,
            final(self).active_field == old(self).active_field,
            final(self).name == old(self).name,
            final(self).user == old(self).user,
            final(self).host == old(self).host,
    {
        self.key_path = candidate.path.clone();
        if let Some(p) = &candidate.password {
            self.password = p.clone();
            self.auth_kind = AuthKind::PrivateKeyWithPassword;
        }
    }

    /// Makes the connection the form describes: name, user and host
    /// trimmed, the key path and the password as typed, with no history.
    pub fn build_connection_config(&self) -> (r: Result<ConnectionConfig, FormError>)
        ensures
            match form_check(self.user@, self.host@, self.auth_kind, self.key_path@, self.password@) {
                Err(e) => r == Err::<ConnectionConfig, FormError>(e),
                Ok(_) => match r {
                    Ok(c) => {
                        &&& c.name@ == trimmed(self.name@)
                        &&& c.user@ == trimmed(self.user@)
                        &&& c.host@ == trimmed(self.host@)
                        &&& c.history@.len() == 0
                        &&& c.last_remote_dir is None
                        &&& match self.auth_kind {
                            AuthKind::PasswordOnly => c.auth == AuthConfig::Password {
                                password: self.password,
                            },
                            AuthKind::PrivateKey => c.auth == AuthConfig::PrivateKey {
                                path: self.key_path,
                                password: None,
                            },
                            AuthKind::PrivateKeyWithPassword => c.auth == AuthConfig::PrivateKey {
                                path: self.key_path,
                                password: Some(self.password),
                            },
                        }
                    },
                    Err(_) => false,
                },
            },
    {
        if blank(self.user.as_str()) {
            return Err(FormError::UserRequired);
        }
        if blank(self.host.as_str()) {
            return Err(FormError::HostRequired);
        }
        let auth = match self.auth_kind {
            AuthKind::PasswordOnly => {
                if self.password.unicode_len() == 0 {
                    return Err(FormError::PasswordRequired);
                }
                AuthConfig::Password { password: self.password.clone() }
            },
            AuthKind::PrivateKey => {
                if blank(self.key_path.as_str()) {
                    return Err(FormError::KeyPathRequired);
                }
                AuthConfig::PrivateKey { path: self.key_path.clone(), password: None }
            },
            AuthKind::PrivateKeyWithPassword => {
                if blank(self.key_path.as_str()) {
                    return Err(FormError::KeyPathRequired);
                }
                if self.password.unicode_len() == 0 {
                    return Err(FormError::KeyPasswordRequired);
                }
                AuthConfig::PrivateKey {
                    path: self.key_path.clone(),
                    password: Some(self.password.clone()),
                }
            },
        };
        let name = trim_text(self.name.as_str());
        let user = trim_text(self.user.as_str());
        let host = trim_text(self.host.as_str());
        Ok(ConnectionConfig { name, user, host, auth, history: Vec::new(), last_remote_dir: None })
    }

    /// The form filled in from a saved connection, focus on the user field.
    pub fn prefill_new_connection(config: &ConnectionConfig) -> (r: NewConnectionState)
        ensures
            r.name@ == config.name@,
            r.user@ == config.user@,
            r.host@ == config.host@,
            r.active_field == Field::User,
            match config.auth {
                AuthConfig::Password { password } => r.auth_kind == AuthKind::PasswordOnly
                    && r.password@ == password@ && r.key_path@.len() == 0,
                AuthConfig::PrivateKey { path, password: Some(p) } => r.auth_kind
                    == AuthKind::PrivateKeyWithPassword && r.key_path@ == path@ && r.password@ == p@,
                AuthConfig::PrivateKey { path, password: None } => r.auth_kind == AuthKind::PrivateKey
                    && r.key_path@ == path@ && r.password@.len() == 0,
            },
    {
        let mut state = NewConnectionState::default();
        state.name = config.name.clone();
        state.user = config.user.clone();
        state.host = config.host.clone();
        match &config.auth {
            AuthConfig::Password { password } => {
                state.auth_kind = AuthKind::PasswordOnly;
                state.password = password.clone();
            },
            AuthConfig::PrivateKey { path, password } => {
                state.key_path = path.clone();
                if let Some(pass) = password {
                    state.auth_kind = AuthKind::PrivateKeyWithPassword;
                    state.password = pass.clone();
                } else {
                    state.auth_kind = AuthKind::PrivateKey;
                }
            },
        }
        state
    }
}

/// The state of the master password form.
#[derive(Debug, Clone)]
pub struct MasterPasswordState {
    pub current: String,
    pub new_password: String,
    pub confirm: String,
    pub active_field: MasterField,
}

impl Default for MasterPasswordState {
    fn default() -> (r: Self)
        ensures
            r.current@.len() == 0,
            r.new_password@.len() == 0,
            r.confirm@.len() == 0,
            r.active_field == MasterField::Current,
    {
        MasterPasswordState {
            current: String::new(),
            new_password: String::new(),
            confirm: String::new(),
            active_field: MasterField::Current,
        }
    }
}

/// The fields of the master password form, in order.
pub open spec fn master_fields() -> Seq<MasterField> {
    seq![MasterField::Current, MasterField::New, MasterField::Confirm, MasterField::ActionSave]
}

/// The position of a field of the master password form.
pub open spec fn master_position(f: MasterField) -> int {
    match f {
        MasterField::Current => 0,
        MasterField::New => 1,
        MasterField::Confirm => 2,
        MasterField::ActionSave => 3,
    }
}

impl MasterPasswordState {
    /// Moves the focus to the next field (or the previous one), wrapping
    /// around.
    pub fn advance_master_field(&mut self, forward: bool)
        ensures
            final(self).active_field == master_fields()[next_position(
                master_position(old(self).active_field),
                4,
                forward,
            )],
            final(self).current == old(self).current,
            final(self).new_password == old(self).new_password,
            final(self).confirm == old(self).confirm,
    {
        let pos: usize = match self.active_field {
            MasterField::Current => 0,
            MasterField::New => 1,
            MasterField::Confirm => 2,
            MasterField::ActionSave => 3,
        };
        let next = if forward {
            (pos + 1) % 4
        } else if pos == 0 {
            3
        } else {
            pos - 1
        };
        self.active_field = if next == 0 {
            MasterField::Current
        } else if next == 1 {
            MasterField::New
        } else if next == 2 {
            MasterField::Confirm
        } else {
            MasterField::ActionSave
        };
    }

    /// Applies an edit to the focused password field; the button takes none.
    pub fn edit_master_field(&mut self, action: EditAction)
        ensures
            final(self).current@ == if old(self).active_field == MasterField::Current {
                edited(old(self).current@, action)
            } else {
                old(self).current@
            },
            final(self).new_password@ == if old(self).active_field == MasterField::New {
                edited(old(self).new_password@, action)
            } else {
                old(self).new_password@
            },
            final(self).confirm@ == if old(self).active_field == MasterField::Confirm {
                edited(old(self).confirm@, action)
            } else {
                old(self).confirm@
            },
            final(self).active_field == old(self).active_field,
    {
        match self.active_field {
            MasterField::Current => apply_edit(&mut self.current, action),
            MasterField::New => apply_edit(&mut self.new_password, action),
            MasterField::Confirm => apply_edit(&mut self.confirm, action),
            MasterField::ActionSave => {},
        }
    }
}

/// The connection form as values.
pub struct FormView {
    pub name: Seq<char>,
    pub user: Seq<char>,
    pub host: Seq<char>,
    pub auth_kind: AuthKind,
    pub key_path: Seq<char>,
    pub password: Seq<char>,
    pub active_field: Field,
}

impl View for NewConnectionState {
    type V = FormView;

    open spec fn view(&self) -> FormView {
        FormView {
            name: self.name@,
            user: self.user@,
            host: self.host@,
            auth_kind: self.auth_kind,
            key_path: self.key_path@,
            password: self.password@,
            active_field: self.active_field,
        }
    }
}

/// What the application does after a key in the connection form.
#[derive(Debug, Clone, Copy, PartialEq, Eq, Structural)]
pub enum FormCommand {
    /// Nothing beyond the change to the form.
    Stay,
    /// Leave the form.
    Cancel,
    /// Browse the disk for a key file.
    OpenFilePicker,
    /// Pick one of the keys saved connections use.
    OpenKeyPicker,
    /// Try the connection without saving it.
    Test,
    /// Save the connection (and connect, for a new one).
    Save,
}

/// The form after an edit of its focused text field.
pub open spec fn edited_form(v: FormView, action: EditAction) -> FormView {
    FormView {
        name: if v.active_field == Field::Name { edited(v.name, action) } else { v.name },
        user: if v.active_field == Field::User { edited(v.user, action) } else { v.user },
        host: if v.active_field == Field::Host { edited(v.host, action) } else { v.host },
        key_path: if v.active_field == Field::KeyPath { edited(v.key_path, action) } else { v.key_path },
        password: if v.active_field == Field::Password { edited(v.password, action) } else { v.password },
        ..v
    }
}

/// The form and the command after a key: Tab and Down move the focus on,
/// BackTab and Up move it back, Left and Right change the authentication
/// choice while it has the focus, F2 and F3 open the pickers from the key
/// path, Enter runs the focused button, Backspace and characters typed
/// without Ctrl edit the focused text field, and Esc leaves.
pub open spec fn form_step(v: FormView, key: KeyPress) -> (FormView, FormCommand) {
    match key.code {
        Key::Esc => (v, FormCommand::Cancel),
        Key::Tab | Key::Down => (
            FormView { active_field: advanced_field(v.auth_kind, v.active_field, true), ..v },
            FormCommand::Stay,
        ),
        Key::BackTab | Key::Up => (
            FormView { active_field: advanced_field(v.auth_kind, v.active_field, false), ..v },
            FormCommand::Stay,
        ),
        Key::Left | Key::Right => if v.active_field == Field::AuthType {
            (
                FormView { auth_kind: cycled_auth(v.auth_kind, key.code == Key::Right), ..v },
                FormCommand::Stay,
            )
        } else {
            (v, FormCommand::Stay)
        },
        Key::F(2) => (v, if v.active_field == Field::KeyPath {
            FormCommand::OpenFilePicker
        } else {
            FormCommand::Stay
        }),
        Key::F(3) => (v, if v.active_field == Field::KeyPath {
            FormCommand::OpenKeyPicker
        } else {
            FormCommand::Stay
        }),
        Key::Enter => (v, if v.active_field == Field::ActionTest {
            FormCommand::Test
        } else if v.active_field == Field::ActionSave {
            FormCommand::Save
        } else {
            FormCommand::Stay
        }),
        Key::Backspace => (edited_form(v, EditAction::Backspace), FormCommand::Stay),
        Key::Char(c) => if key.ctrl {
            (v, FormCommand::Stay)
        } else {
            (edited_form(v, EditAction::Insert(c)), FormCommand::Stay)
        },
        _ => (v, FormCommand::Stay),
    }
}

impl NewConnectionState {
    /// Applies a key to the form and says what the application does next.
    pub fn handle_key(&mut self, key: KeyPress) -> (r: FormCommand)
        ensures
            (final(self)@, r) == form_step(old(self)@, key),
    {
        match key.code {
            Key::Esc => FormCommand::Cancel,
            Key::Tab | Key::Down => {
                self.advance_field(true);
                FormCommand::Stay
            },
            Key::BackTab | Key::Up => {
                self.advance_field(false);
                FormCommand::Stay
            },
            Key::Left | Key::Right => {
                if self.active_field == Field::AuthType {
                    let right = key.code == Key::Right;
                    self.cycle_auth_kind(right);
                }
                FormCommand::Stay
            },
            Key::F(2) => {
                if self.active_field == Field::KeyPath {
                    FormCommand::OpenFilePicker
                } else {
                    FormCommand::Stay
                }
            },
            Key::F(3) => {
                if self.active_field == Field::KeyPath {
                    FormCommand::OpenKeyPicker
                } else {
                    FormCommand::Stay
                }
            },
            Key::Enter => {
                if self.active_field == Field::ActionTest {
                    FormCommand::Test
                } else if self.active_field == Field::ActionSave {
                    FormCommand::Save
                } else {
                    FormCommand::Stay
                }
            },
            Key::Backspace => {
                self.edit_active_field(EditAction::Backspace);
                FormCommand::Stay
            },
            Key::Char(c) => {
                if !key.ctrl {
                    self.edit_active_field(EditAction::Insert(c));
                }
                FormCommand::Stay
            },
            _ => FormCommand::Stay,
        }
    }
}

/// The master password form as values.
pub struct MasterView {
    pub current: Seq<char>,
    pub new_password: Seq<char>,
    pub confirm: Seq<char>,
    pub active_field: MasterField,
}

impl View for MasterPasswordState {
    type V = MasterView;

    open spec fn view(&self) -> MasterView {
        MasterView {
            current: self.current@,
            new_password: self.new_password@,
            confirm: self.confirm@,
            active_field: self.active_field,
        }
    }
}

/// What the application does after a key in the master password form.
#[derive(Debug, Clone, Copy, PartialEq, Eq, Structural)]
pub enum MasterCommand {
    Stay,
    Cancel,
    /// Change the master password to what the form holds.
    Submit,
}

/// The master password form after an edit of its focused field.
pub open spec fn edited_master(v: MasterView, action: EditAction) -> MasterView {
    MasterView {
        current: if v.active_field == MasterField::Current { edited(v.current, action) } else { v.current },
        new_password: if v.active_field == MasterField::New {
            edited(v.new_password, action)
        } else {
            v.new_password
        },
        confirm: if v.active_field == MasterField::Confirm { edited(v.confirm, action) } else { v.confirm },
        ..v
    }
}

/// The focus after moving on (or back) from `f`.
pub open spec fn advanced_master(f: MasterField, forward: bool) -> MasterField {
    master_fields()[next_position(master_position(f), 4, forward)]
}

/// The master password form and the command after a key.
pub open spec fn master_step(v: MasterView, key: KeyPress) -> (MasterView, MasterCommand) {
    match key.code {
        Key::Esc => (v, MasterCommand::Cancel),
        Key::Tab | Key::Down => (
            MasterView { active_field: advanced_master(v.active_field, true), ..v },
            MasterCommand::Stay,
        ),
        Key::BackTab | Key::Up => (
            MasterView { active_field: advanced_master(v.active_field, false), ..v },
            MasterCommand::Stay,
        ),
        Key::Enter => (v, if v.active_field == MasterField::ActionSave {
            MasterCommand::Submit
        } else {
            MasterCommand::Stay
        }),
        Key::Backspace => (edited_master(v, EditAction::Backspace), MasterCommand::Stay),
        Key::Char(c) => if key.ctrl {
            (v, MasterCommand::Stay)
        } else {
            (edited_master(v, EditAction::Insert(c)), MasterCommand::Stay)
        },
        _ => (v, MasterCommand::Stay),
    }
}

impl MasterPasswordState {
    /// Applies a key to the form and says what the application does next.
    pub fn handle_key(&mut self, key: KeyPress) -> (r: MasterCommand)
        ensures
            (final(self)@, r) == master_step(old(self)@, key),
    {
        match key.code {
            Key::Esc => MasterCommand::Cancel,
            Key::Tab | Key::Down => {
                self.advance_master_field(true);
                MasterCommand::Stay
            },
            Key::BackTab | Key::Up => {
                self.advance_master_field(false);
                MasterCommand::Stay
            },
            Key::Enter => {
                if self.active_field == MasterField::ActionSave {
                    MasterCommand::Submit
                } else {
                    MasterCommand::Stay
                }
            },
            Key::Backspace => {
                self.edit_master_field(EditAction::Backspace);
                MasterCommand::Stay
            },
            Key::Char(c) => {
                if !key.ctrl {
                    self.edit_master_field(EditAction::Insert(c));
                }
                MasterCommand::Stay
            },
            _ => MasterCommand::Stay,
        }
    }
}

/// The message a form shows where fields are missing.
pub fn missing_fields_message(err: FormError) -> (r: String)
    ensures
        r@ == "Missing fields: "@ + form_error_text(err),
{
    let mut out = String::from_str("Missing fields: ");
    out.append(err.message());
    out
}

/// The message a form shows where connecting failed for `reason`.
pub fn connection_failed_message(reason: &str) -> (r: String)
    ensures
        r@ == "Connection failed: "@ + reason@,
{
    let mut out = String::from_str("Connection failed: ");
    out.append(reason);
    out
}

/// The result a connection test shows: whether the form was complete and,
/// where it was, whether connecting worked (and why not).
pub fn test_result(form: Result<(), FormError>, connect: Result<(), String>) -> (r: TryResult)
    ensures
        match form {
            Err(e) => !r.success && r.message@ == "Missing fields: "@ + form_error_text(e),
            Ok(()) => match connect {
                Ok(()) => r.success && r.message@ == "Connection OK (not saved)"@,
                Err(reason) => !r.success && r.message@ == "Connection failed: "@ + reason@,
            },
        },
{
    match form {
        Err(e) => TryResult { success: false, message: missing_fields_message(e) },
        Ok(()) => match connect {
            Ok(()) => TryResult {
                success: true,
                message: String::from_str("Connection OK (not saved)"),
            },
            Err(reason) => TryResult {
                success: false,
                message: connection_failed_message(reason.as_str()),
            },
        },
    }
}

/// Moving the authentication choice one way and then the other brings it
/// back.
pub proof fn lemma_auth_cycle_inverse(kind: AuthKind, right: bool)
    ensures
        cycled_auth(cycled_auth(kind, right), !right) == kind,
{
}

/// Moving the focus on and then back (or back and then on) returns it to a
/// field the form shows.
pub proof fn lemma_focus_round_trip(kind: AuthKind, field: Field, forward: bool)
    requires
        fields_for(kind).contains(field),
    ensures
        advanced_field(kind, advanced_field(kind, field, forward), !forward) == field,
{
    let fields = fields_for(kind);
    let n = fields.len() as int;
    let pos = fields.index_of(field);
    assert(0 <= pos < n && fields[pos] == field);
    let np = next_position(pos, n, forward);
    if forward {
        if pos + 1 < n {
            vstd::arithmetic::div_mod::lemma_small_mod((pos + 1) as nat, n as nat);
        } else {
            vstd::arithmetic::div_mod::lemma_mod_self_0(n);
        }
    }
    assert(0 <= np < n);
    let g = fields[np];
    assert(fields.contains(g));
    let gi = fields.index_of(g);
    assert(0 <= gi < n && fields[gi] == g);
    lemma_fields_distinct(kind, gi, np);
    assert(gi == np);
    if !forward {
        if np + 1 < n {
            vstd::arithmetic::div_mod::lemma_small_mod((np + 1) as nat, n as nat);
        } else {
            vstd::arithmetic::div_mod::lemma_mod_self_0(n);
        }
    }
    assert(next_position(np, n, !forward) == pos);
}

/// Moving the focus of the master password form on and then back (or back
/// and then on) returns it.
pub proof fn lemma_master_focus_round_trip(field: MasterField, forward: bool)
    ensures
        advanced_master(advanced_master(field, forward), !forward) == field,
{
    assert(master_fields()[0] == MasterField::Current);
    assert(master_fields()[1] == MasterField::New);
    assert(master_fields()[2] == MasterField::Confirm);
    assert(master_fields()[3] == MasterField::ActionSave);
    assert(1int % 4 == 1 && 2int % 4 == 2 && 3int % 4 == 3 && 4int % 4 == 0);
}

} // verus!
