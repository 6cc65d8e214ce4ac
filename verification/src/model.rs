//! Connection records and the other plain data the client keeps.
use vstd::prelude::*;

use crate::text::{from_chars, is_blank, trimmed};

verus! {

/// How a saved connection authenticates.
#[derive(Debug, Clone, PartialEq, Eq)]
pub enum AuthConfig {
    Password { password: String },
    PrivateKey { path: String, password: Option<String> },
}

/// Outcome of one connection attempt.
#[derive(Debug, Clone, Copy, PartialEq, Eq, Structural)]
pub enum HistoryState {
    Success,
    Failure,
}

/// One entry of a connection's history: when, and how it went.
#[derive(Debug, Clone, Copy, PartialEq, Eq, Structural)]
pub struct HistoryEntry {
    pub ts: u64,
    pub state: HistoryState,
}

/// A saved connection, with its secrets in the clear.
#[derive(Debug, Clone, PartialEq, Eq)]
pub struct ConnectionConfig {
    pub name: String,
    pub user: String,
    pub host: String,
    pub auth: AuthConfig,
    pub history: Vec<HistoryEntry>,
    pub last_remote_dir: Option<String>,
}

/// Ciphertext and nonce of one secret, both in base64.
#[derive(Debug, Clone, PartialEq, Eq)]
pub struct EncryptedBlob {
    pub nonce: String,
    pub ciphertext: String,
}

/// The salt of the master key and an encrypted check value.
#[derive(Debug, Clone, PartialEq, Eq)]
pub struct MasterConfig {
    pub salt_b64: String,
    pub check: EncryptedBlob,
}

/// How a stored connection authenticates, secrets encrypted.
#[derive(Debug, Clone, PartialEq, Eq)]
pub enum StoredAuthConfig {
    Password { password: EncryptedBlob },
    PrivateKey { path: String, password: Option<EncryptedBlob> },
}

/// A saved connection as it is written to the store file.
#[derive(Debug, Clone, PartialEq, Eq)]
pub struct StoredConnection {
    pub name: String,
    pub user: String,
    pub host: String,
    pub auth: StoredAuthConfig,
    pub history: Vec<HistoryEntry>,
    pub last_remote_dir: Option<String>,
}

/// The whole store file.
#[derive(Debug, Clone, PartialEq, Eq)]
pub struct StoreFile {
    pub master: MasterConfig,
    pub connections: Vec<StoredConnection>,
    pub last_local_dir: Option<String>,
}

/// The main screen's modes.
#[derive(Debug, Clone, Copy, PartialEq, Eq, Structural)]
pub enum Mode {
    Normal,
    NewConnection,
    ChangeMasterPassword,
    ConfirmDelete,
}

/// The fields of the connection form.
#[derive(Debug, Clone, Copy, PartialEq, Eq, Structural)]
pub enum Field {
    Name,
    User,
    Host,
    AuthType,
    KeyPath,
    Password,
    ActionTest,
    ActionSave,
}

/// The fields of the master password form.
#[derive(Debug, Clone, Copy, PartialEq, Eq, Structural)]
pub enum MasterField {
    Current,
    New,
    Confirm,
    ActionSave,
}

/// The authentication choices of the connection form.
#[derive(Debug, Clone, Copy, PartialEq, Eq, Structural)]
pub enum AuthKind {
    PasswordOnly,
    PrivateKey,
    PrivateKeyWithPassword,
}

/// Which way a transfer goes.
#[derive(Debug, Clone, Copy, PartialEq, Eq, Structural)]
pub enum TransferDirection {
    Upload,
    Download,
}

/// The steps of a transfer.
#[derive(Debug, Clone, Copy, PartialEq, Eq, Structural)]
pub enum TransferStep {
    PickSource,
    PickTarget,
    Confirm,
    Transferring,
}

/// One entry of a remote directory.
#[derive(Debug, Clone, PartialEq, Eq)]
pub struct RemoteEntry {
    pub name: String,
    pub path: String,
    pub is_dir: bool,
}

/// A private key offered for reuse, with its password if it has one.
#[derive(Debug, Clone, PartialEq, Eq)]
pub struct KeyCandidate {
    pub path: String,
    pub password: Option<String>,
}

/// A titled message shown in a modal.
#[derive(Debug, Clone, PartialEq, Eq)]
pub struct Notice {
    pub title: String,
    pub message: String,
}

/// Result of a connection test.
#[derive(Debug, Clone, PartialEq, Eq)]
pub struct TryResult {
    pub success: bool,
    pub message: String,
}

/// What the main loop is asked to do next.
#[derive(Debug, Clone, Copy, PartialEq, Eq, Structural)]
pub enum AppAction {
    OpenTerminal,
}

/// A copy of an optional string that equals it.
pub fn copy_opt_string(s: &Option<String>) -> (r: Option<String>)
    ensures
        r == *s,
{
    match s {
        Some(v) => Some(v.clone()),
        None => None,
    }
}

/// A copy of a history that equals it.
pub fn copy_history(h: &Vec<HistoryEntry>) -> (r: Vec<HistoryEntry>)
    ensures
        r@ == h@,
{
    let mut out: Vec<HistoryEntry> = Vec::new();
    let mut i: usize = 0;
    while i < h.len()
        invariant
            i <= h.len(),
            out@ =~= h@.take(i as int),
        decreases h.len() - i,
    {
        let e = HistoryEntry { ts: h[i].ts, state: h[i].state };
        out.push(e);
        i = i + 1;
    }
    assert(out@ =~= h@);
    out
}

impl AuthConfig {
    /// A copy that equals `self`.
    pub fn duplicate(&self) -> (r: Self)
        ensures
            r == *self,
    {
        match self {
            AuthConfig::Password { password } => AuthConfig::Password { password: password.clone() },
            AuthConfig::PrivateKey { path, password } => AuthConfig::PrivateKey {
                path: path.clone(),
                password: copy_opt_string(password),
            },
        }
    }
}

/// The view of a connection: its fields as plain values.
pub struct ConnectionView {
    pub name: Seq<char>,
    pub user: Seq<char>,
    pub host: Seq<char>,
    pub auth: AuthView,
    pub history: Seq<HistoryEntry>,
    pub last_remote_dir: Option<Seq<char>>,
}

/// The view of an authentication setting.
pub enum AuthView {
    Password { password: Seq<char> },
    PrivateKey { path: Seq<char>, password: Option<Seq<char>> },
}

pub open spec fn opt_view(s: Option<String>) -> Option<Seq<char>> {
    match s {
        Some(v) => Some(v@),
        None => None,
    }
}

impl View for AuthConfig {
    type V = AuthView;

    open spec fn view(&self) -> AuthView {
        match self {
            AuthConfig::Password { password } => AuthView::Password { password: password@ },
            AuthConfig::PrivateKey { path, password } => AuthView::PrivateKey {
                path: path@,
                password: opt_view(*password),
            },
        }
    }
}

impl View for ConnectionConfig {
    type V = ConnectionView;

    open spec fn view(&self) -> ConnectionView {
        ConnectionView {
            name: self.name@,
            user: self.user@,
            host: self.host@,
            auth: self.auth@,
            history: self.history@,
            last_remote_dir: opt_view(self.last_remote_dir),
        }
    }
}

impl ConnectionConfig {
    /// A copy that equals `self`.
    pub fn duplicate(&self) -> (r: Self)
        ensures
            r@ == self@,
    {
        let r = ConnectionConfig {
            name: self.name.clone(),
            user: self.user.clone(),
            host: self.host.clone(),
            auth: self.auth.duplicate(),
            history: copy_history(&self.history),
            last_remote_dir: copy_opt_string(&self.last_remote_dir),
        };
        r
    }

    /// The name shown for a connection: its name, or its host where the
    /// name is blank.
    pub open spec fn spec_label(&self) -> Seq<char> {
        if is_blank(self.name@) {
            self.host@
        } else {
            self.name@
        }
    }

    /// The name shown for this connection: the name, or the host where the
    /// name holds only whitespace.
    pub fn label(&self) -> (r: String)
        ensures
            r@ == self.spec_label(),
    {
        if crate::text::blank(self.name.as_str()) {
            self.host.clone()
        } else {
            self.name.clone()
        }
    }
}

/// Two connections are the same identity when user and host agree and
/// both use a password, or both use the same key file.
pub open spec fn spec_same_identity(left: ConnectionView, right: ConnectionView) -> bool {
    &&& left.user == right.user
    &&& left.host == right.host
    &&& match (left.auth, right.auth) {
        (AuthView::Password { .. }, AuthView::Password { .. }) => true,
        (AuthView::PrivateKey { path: l, .. }, AuthView::PrivateKey { path: r, .. }) => l == r,
        _ => false,
    }
}

/// Whether two connections are the same identity (user, host and kind of
/// authentication, with the key file for key authentication).
pub fn same_identity(left: &ConnectionConfig, right: &ConnectionConfig) -> (r: bool)
    ensures
        r == spec_same_identity(left@, right@),
{
    if left.user != right.user || left.host != right.host {
        return false;
    }
    match (&left.auth, &right.auth) {
        (AuthConfig::Password { .. }, AuthConfig::Password { .. }) => true,
        (AuthConfig::PrivateKey { path: lp, .. }, AuthConfig::PrivateKey { path: rp, .. }) => {
            *lp == *rp
        },
        _ => false,
    }
}

/// The authentication part of a connection key.
pub open spec fn auth_hint(auth: AuthView) -> Seq<char> {
    match auth {
        AuthView::Password { .. } => seq!['p', 'w'],
        AuthView::PrivateKey { path, .. } => seq!['p', 'k', ':'] + path,
    }
}

/// The key under which a connection's state is kept:
/// `user@host|pw` or `user@host|pk:<key path>`.
pub open spec fn spec_connection_key(c: ConnectionView) -> Seq<char> {
    c.user + seq!['@'] + c.host + seq!['|'] + auth_hint(c.auth)
}

/// The key under which this connection's state is kept.
pub fn connection_key(conn: &ConnectionConfig) -> (r: String)
    ensures
        r@ == spec_connection_key(conn@),
{
    let mut chars: Vec<char> = crate::text::to_chars(conn.user.as_str());
    chars.push('@');
    let host = crate::text::to_chars(conn.host.as_str());
    let mut tail = host;
    chars.append(&mut tail);
    chars.push('|');
    match &conn.auth {
        AuthConfig::Password { .. } => {
            chars.push('p');
            chars.push('w');
        },
        AuthConfig::PrivateKey { path, .. } => {
            chars.push('p');
            chars.push('k');
            chars.push(':');
            let mut p = crate::text::to_chars(path.as_str());
            chars.append(&mut p);
        },
    }
    assert(chars@ =~= spec_connection_key(conn@));
    from_chars(chars.as_slice())
}

/// Seconds since the Unix epoch by the system clock, where the clock is
/// not before the epoch.
///
/// Wraps `SystemTime::now()` and `SystemTime::duration_since`; nothing is
/// stated of the value, which is read from the clock.
#[verifier::external_body]
fn clock_epoch_seconds() -> (r: Option<u64>) {
    std::time::SystemTime::now()
        .duration_since(std::time::SystemTime::UNIX_EPOCH)
        .ok()
        .map(|duration| duration.as_secs())
}

/// The epoch seconds a clock reading gives: the reading, or 0 where the
/// clock was before the epoch.
pub fn epoch_or_zero(reading: Option<u64>) -> (r: u64)
    ensures
        r == match reading {
            Some(secs) => secs,
            None => 0,
        },
{
    match reading {
        Some(secs) => secs,
        None => 0,
    }
}

/// Seconds since the Unix epoch now, or 0 where the clock is before it.
pub fn now_epoch() -> (r: u64) {
    epoch_or_zero(clock_epoch_seconds())
}

/// The latest timestamp accepted by `format_history_entry`: the last second
/// of the last year that the date library represents.
pub const MAX_HISTORY_TIMESTAMP: u64 = 8210266876799;

/// The local date and time of `ts` seconds after the epoch, as
/// `%Y-%m-%d %H:%M:%S`.
///
/// Wraps `chrono::DateTime::<Local>::from` and `DateTime::format`; the
/// result depends on the machine's time zone, so nothing is stated of it.
#[verifier::external_body]
fn local_timestamp_text(ts: u64) -> (r: String)
    requires
        ts <= MAX_HISTORY_TIMESTAMP,
{
    let time = std::time::SystemTime::UNIX_EPOCH + std::time::Duration::from_secs(ts);
    let dt = chrono::DateTime::<chrono::Local>::from(time);
    format!("{}", dt.format("%Y-%m-%d %H:%M:%S"))
}

/// The word a history line shows for a state.
pub open spec fn state_word(state: HistoryState) -> Seq<char> {
    match state {
        HistoryState::Success => seq!['s', 'u', 'c', 'c', 'e', 's', 's'],
        HistoryState::Failure => seq!['f', 'a', 'i', 'l', 'e', 'd'],
    }
}

/// A history line: the date, " | " and the state's word.
pub open spec fn spec_history_line(date: Seq<char>, state: HistoryState) -> Seq<char> {
    date + seq![' ', '|', ' '] + state_word(state)
}

/// The history line for an entry whose date reads `date`.
pub fn history_entry_text(date: &str, state: HistoryState) -> (r: String)
    ensures
        r@ == spec_history_line(date@, state),
{
    let mut chars = crate::text::to_chars(date);
    chars.push(' ');
    chars.push('|');
    chars.push(' ');
    match state {
        HistoryState::Success => {
            chars.push('s');
            chars.push('u');
            chars.push('c');
            chars.push('c');
            chars.push('e');
            chars.push('s');
            chars.push('s');
        },
        HistoryState::Failure => {
            chars.push('f');
            chars.push('a');
            chars.push('i');
            chars.push('l');
            chars.push('e');
            chars.push('d');
        },
    }
    assert(chars@ =~= spec_history_line(date@, state));
    from_chars(chars.as_slice())
}

/// The history line of an entry: its local date and time, " | ", and
/// "success" or "failed".
pub fn format_history_entry(entry: &HistoryEntry) -> (r: String)
    requires
        entry.ts <= MAX_HISTORY_TIMESTAMP,
    ensures
        exists|date: Seq<char>| r@ == spec_history_line(date, entry.state),
{
    let date = local_timestamp_text(entry.ts);
    history_entry_text(date.as_str(), entry.state)
}

/// A history read from the older store format, which kept only the
/// timestamps of successful connections.
pub open spec fn spec_history_from_timestamps(ts: Seq<u64>) -> Seq<HistoryEntry> {
    ts.map_values(|t: u64| HistoryEntry { ts: t, state: HistoryState::Success })
}

/// Reads a history kept as bare timestamps: each was a success.
pub fn history_from_timestamps(timestamps: &Vec<u64>) -> (r: Vec<HistoryEntry>)
    ensures
        r@ == spec_history_from_timestamps(timestamps@),
{
    let mut out: Vec<HistoryEntry> = Vec::new();
    let mut i: usize = 0;
    while i < timestamps.len()
        invariant
            i <= timestamps.len(),
            out@ =~= spec_history_from_timestamps(timestamps@.take(i as int)),
        decreases timestamps.len() - i,
    {
        out.push(HistoryEntry { ts: timestamps[i], state: HistoryState::Success });
        i = i + 1;
        assert(spec_history_from_timestamps(timestamps@.take(i as int)) =~= spec_history_from_timestamps(
            timestamps@.take(i - 1),
        ).push(HistoryEntry { ts: timestamps@[i - 1], state: HistoryState::Success }));
    }
    assert(timestamps@.take(timestamps.len() as int) =~= timestamps@);
    out
}

/// Connections with the same identity share their key.
pub proof fn lemma_same_identity_same_key(a: ConnectionView, b: ConnectionView)
    requires
        spec_same_identity(a, b),
    ensures
        spec_connection_key(a) == spec_connection_key(b),
{
}

} // verus!
