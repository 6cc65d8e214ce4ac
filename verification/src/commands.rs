//! What a key means in each part of the application: the route a key takes,
//! and the command it gives on the main screen, in the notice, in the delete
//! confirmation and in the transfer confirmation.
use vstd::prelude::*;

use crate::keys::{Key, KeyPress};
use crate::model::{Mode, Notice, TransferDirection, TransferStep};

verus! {

/// What the header above the connection details shows.
#[derive(Debug, Clone, Copy, PartialEq, Eq, Structural)]
pub enum HeaderMode {
    Help,
    Logs,
    Off,
}

/// The header mode the view key switches to: help, then logs, then none.
pub open spec fn next_header_mode(mode: HeaderMode) -> HeaderMode {
    match mode {
        HeaderMode::Help => HeaderMode::Logs,
        HeaderMode::Logs => HeaderMode::Off,
        HeaderMode::Off => HeaderMode::Help,
    }
}

/// The header mode after the view key.
pub fn cycle_header_mode(mode: HeaderMode) -> (r: HeaderMode)
    ensures
        r == next_header_mode(mode),
{
    match mode {
        HeaderMode::Help => HeaderMode::Logs,
        HeaderMode::Logs => HeaderMode::Off,
        HeaderMode::Off => HeaderMode::Help,
    }
}

/// What a notice offers to do once the selected connection is connected.
#[derive(Debug, Clone, Copy, PartialEq, Eq, Structural)]
pub enum NoticeAction {
    ConnectTerminal,
    ConnectUpload,
    ConnectDownload,
}

/// How the notice footer names the action it offers.
pub fn notice_action_label(action: Option<NoticeAction>) -> (r: Option<&'static str>)
    ensures
        action is None <==> r is None,
        action == Some(NoticeAction::ConnectTerminal) ==> r.unwrap()@
            == "connect and open the terminal"@,
        action == Some(NoticeAction::ConnectUpload) ==> r.unwrap()@
            == "connect and select what to upload"@,
        action == Some(NoticeAction::ConnectDownload) ==> r.unwrap()@
            == "connect and select what to download"@,
{
    match action {
        Some(NoticeAction::ConnectTerminal) => Some("connect and open the terminal"),
        Some(NoticeAction::ConnectUpload) => Some("connect and select what to upload"),
        Some(NoticeAction::ConnectDownload) => Some("connect and select what to download"),
        None => None,
    }
}

/// The notice on screen, if any, and the action it offers.
pub struct NoticeState {
    pub notice: Option<Notice>,
    pub action: Option<NoticeAction>,
}

/// What follows a key in the notice.
#[derive(Debug, Clone, Copy, PartialEq, Eq, Structural)]
pub enum NoticeFollowUp {
    /// Connect the selected connection and, where that works, do this.
    ConnectThen(NoticeAction),
    /// Connect the selected connection and do nothing more.
    ConnectOnly,
}

impl NoticeState {
    /// No notice.
    pub fn new() -> (r: Self)
        ensures
            r.notice is None,
            r.action is None,
    {
        NoticeState { notice: None, action: None }
    }

    /// Whether a notice is on screen.
    pub fn is_open(&self) -> (r: bool)
        ensures
            r == self.notice is Some,
    {
        self.notice.is_some()
    }

    /// Shows a notice that offers `action`.
    pub fn show(&mut self, notice: Notice, action: Option<NoticeAction>)
        ensures
            final(self).notice == Some(notice),
            final(self).action == if action is Some {
                action
            } else {
                old(self).action
            },
    {
        self.notice = Some(notice);
        if action.is_some() {
            self.action = action;
        }
    }

    /// A key while the notice is on screen: Enter closes it and takes up
    /// its action, Esc closes it and leaves the action where it was, `c`
    /// closes it and drops the action to connect only; other keys do nothing.
    pub fn handle_key(&mut self, code: Key) -> (r: Option<NoticeFollowUp>)
        ensures
            code == Key::Enter ==> final(self).notice is None && final(self).action is None && r
                == match old(self).action {
                Some(a) => Some(NoticeFollowUp::ConnectThen(a)),
                None => None,
            },
            code == Key::Esc ==> final(self).notice is None && final(self).action
                == old(self).action && r is None,
            code == Key::Char('c') ==> final(self).notice is None && final(self).action is None
                && r == Some(NoticeFollowUp::ConnectOnly),
            code != Key::Enter && code != Key::Esc && code != Key::Char('c') ==> final(self).notice
                == old(self).notice && final(self).action == old(self).action && r is None,
    {
        match code {
            Key::Enter => {
                self.notice = None;
                match self.action.take() {
                    Some(a) => Some(NoticeFollowUp::ConnectThen(a)),
                    None => None,
                }
            },
            Key::Esc => {
                self.notice = None;
                None
            },
            Key::Char('c') => {
                self.notice = None;
                self.action = None;
                Some(NoticeFollowUp::ConnectOnly)
            },
            _ => None,
        }
    }
}

/// The part of the application a key goes to.
#[derive(Debug, Clone, Copy, PartialEq, Eq, Structural)]
pub enum KeyRoute {
    Notice,
    FilePicker,
    RemotePicker,
    TransferConfirm,
    Normal,
    KeyPicker,
    TryResult,
    NewConnection,
    MasterPassword,
    ConfirmDelete,
}

/// Where a key goes: the notice first; during a transfer its pickers, then
/// its confirmation (unless a running transfer is hidden); then the screen
/// of the mode, where the connection form gives way to its own pickers and
/// to the result of a test.
pub open spec fn spec_route_key(notice_open: bool, transfer_step: Option<TransferStep>, file_picker_open: bool, remote_picker_open: bool, transfer_hidden: bool, key_picker_open: bool, try_result_open: bool, mode: Mode) -> KeyRoute {
    if notice_open {
        KeyRoute::Notice
    } else if transfer_step is Some && file_picker_open {
        KeyRoute::FilePicker
    } else if transfer_step is Some && remote_picker_open {
        KeyRoute::RemotePicker
    } else if transfer_step is Some && !(transfer_step == Some(TransferStep::Transferring)
        && transfer_hidden) && (transfer_step == Some(TransferStep::Confirm) || transfer_step
        == Some(TransferStep::Transferring)) {
        KeyRoute::TransferConfirm
    } else {
        match mode {
            Mode::Normal => KeyRoute::Normal,
            Mode::NewConnection => if file_picker_open {
                KeyRoute::FilePicker
            } else if key_picker_open {
                KeyRoute::KeyPicker
            } else if try_result_open {
                KeyRoute::TryResult
            } else {
                KeyRoute::NewConnection
            },
            Mode::ChangeMasterPassword => KeyRoute::MasterPassword,
            Mode::ConfirmDelete => KeyRoute::ConfirmDelete,
        }
    }
}

/// Where a key goes.
pub fn route_key(
    notice_open: bool,
    transfer_step: Option<TransferStep>,
    file_picker_open: bool,
    remote_picker_open: bool,
    transfer_hidden: bool,
    key_picker_open: bool,
    try_result_open: bool,
    mode: Mode,
) -> (r: KeyRoute)
    ensures
        r == spec_route_key(
            notice_open,
            transfer_step,
            file_picker_open,
            remote_picker_open,
            transfer_hidden,
            key_picker_open,
            try_result_open,
            mode,
        ),
{
    if notice_open {
        return KeyRoute::Notice;
    }
    if let Some(step) = transfer_step {
        if file_picker_open {
            return KeyRoute::FilePicker;
        }
        if remote_picker_open {
            return KeyRoute::RemotePicker;
        }
        let hidden_run = step == TransferStep::Transferring && transfer_hidden;
        if !hidden_run && (step == TransferStep::Confirm || step == TransferStep::Transferring) {
            return KeyRoute::TransferConfirm;
        }
    }
    match mode {
        Mode::Normal => KeyRoute::Normal,
        Mode::NewConnection => {
            if file_picker_open {
                KeyRoute::FilePicker
            } else if key_picker_open {
                KeyRoute::KeyPicker
            } else if try_result_open {
                KeyRoute::TryResult
            } else {
                KeyRoute::NewConnection
            }
        },
        Mode::ChangeMasterPassword => KeyRoute::MasterPassword,
        Mode::ConfirmDelete => KeyRoute::ConfirmDelete,
    }
}

/// Whether a key closes the result of a connection test.
pub fn closes_try_result(code: Key) -> (r: bool)
    ensures
        r == (code == Key::Enter || code == Key::Esc),
{
    code == Key::Enter || code == Key::Esc
}

/// The command a key gives on the main screen.
#[derive(Debug, Clone, Copy, PartialEq, Eq, Structural)]
pub enum NormalCommand {
    Quit,
    NewConnection,
    /// Edit the saved connection at this index.
    EditConnection(usize),
    /// A command that needs a selected connection found none.
    NoSelection,
    Disconnect,
    Connect,
    CycleHeader,
    OpenTerminal,
    Upload,
    Download,
    /// The selected connection is not connected; offer to connect first.
    AskToConnect(NoticeAction),
    ChangeMasterPassword,
    /// Ask to confirm the removal of the saved connection at this index.
    ConfirmDelete(usize),
    NoSavedConnections,
    /// Select the saved connection at this index, from the first page of
    /// its history.
    Select(usize),
    /// Show this page of the history.
    HistoryPage(usize),
    Nothing,
}

/// The command a key gives on the main screen, where `selected` is the
/// selected row of `count` saved connections, `connected` tells whether the
/// selected one is connected, and the history shows page `page` of pages
/// `0..=max_page`.
pub open spec fn spec_normal_command(code: Key, selected: usize, count: usize, connected: bool, page: usize, max_page: usize) -> NormalCommand {
    match code {
        Key::Char('q') => NormalCommand::Quit,
        Key::Char('n') => NormalCommand::NewConnection,
        Key::Char('e') => if selected < count {
            NormalCommand::EditConnection(selected)
        } else {
            NormalCommand::NoSelection
        },
        Key::Char('c') => if connected {
            NormalCommand::Disconnect
        } else {
            NormalCommand::Connect
        },
        Key::Char('v') => NormalCommand::CycleHeader,
        Key::Char('t') => if connected {
            NormalCommand::OpenTerminal
        } else {
            NormalCommand::AskToConnect(NoticeAction::ConnectTerminal)
        },
        Key::Char('u') => if connected {
            NormalCommand::Upload
        } else {
            NormalCommand::AskToConnect(NoticeAction::ConnectUpload)
        },
        Key::Char('d') => if connected {
            NormalCommand::Download
        } else {
            NormalCommand::AskToConnect(NoticeAction::ConnectDownload)
        },
        Key::Char('o') => NormalCommand::ChangeMasterPassword,
        Key::Char('x') => if count == 0 {
            NormalCommand::NoSavedConnections
        } else {
            NormalCommand::ConfirmDelete(selected)
        },
        Key::Tab | Key::Down => if selected + 1 < count {
            NormalCommand::Select((selected + 1) as usize)
        } else {
            NormalCommand::Nothing
        },
        Key::BackTab | Key::Up => if selected > 0 {
            NormalCommand::Select((selected - 1) as usize)
        } else {
            NormalCommand::Nothing
        },
        Key::Left => if page > 0 {
            NormalCommand::HistoryPage((page - 1) as usize)
        } else {
            NormalCommand::Nothing
        },
        Key::Right => if selected < count && page < max_page {
            NormalCommand::HistoryPage((page + 1) as usize)
        } else {
            NormalCommand::Nothing
        },
        _ => NormalCommand::Nothing,
    }
}

/// The command a key gives on the main screen.
pub fn normal_command(code: Key, selected: usize, count: usize, connected: bool, page: usize, max_page: usize) -> (r: NormalCommand)
    ensures
        r == spec_normal_command(code, selected, count, connected, page, max_page),
        connected && code == Key::Char('u') ==> r == NormalCommand::Upload,
        connected && code == Key::Char('d') ==> r == NormalCommand::Download,
        connected && code == Key::Char('t') ==> r == NormalCommand::OpenTerminal,
        !connected && code == Key::Char('u') ==> r == NormalCommand::AskToConnect(NoticeAction::ConnectUpload),
        !connected && code == Key::Char('d') ==> r == NormalCommand::AskToConnect(NoticeAction::ConnectDownload),
        !connected && code == Key::Char('t') ==> r == NormalCommand::AskToConnect(NoticeAction::ConnectTerminal),
        r == NormalCommand::Upload ==> code == Key::Char('u') && connected,
        r == NormalCommand::Download ==> code == Key::Char('d') && connected,
        r == NormalCommand::OpenTerminal ==> code == Key::Char('t') && connected,
        r == NormalCommand::Quit <==> code == Key::Char('q'),
        r == NormalCommand::NewConnection <==> code == Key::Char('n'),
        r == NormalCommand::Connect <==> code == Key::Char('c') && !connected,
        r == NormalCommand::Disconnect <==> code == Key::Char('c') && connected,
        r == NormalCommand::ChangeMasterPassword <==> code == Key::Char('o'),
        r matches NormalCommand::EditConnection(i) ==> code == Key::Char('e') && i == selected && selected < count,
        r matches NormalCommand::ConfirmDelete(i) ==> code == Key::Char('x') && i == selected && count > 0,
{
    match code {
        Key::Char('q') => NormalCommand::Quit,
        Key::Char('n') => NormalCommand::NewConnection,
        Key::Char('e') => {
            if selected < count {
                NormalCommand::EditConnection(selected)
            } else {
                NormalCommand::NoSelection
            }
        },
        Key::Char('c') => {
            if connected {
                NormalCommand::Disconnect
            } else {
                NormalCommand::Connect
            }
        },
        Key::Char('v') => NormalCommand::CycleHeader,
        Key::Char('t') => {
            if connected {
                NormalCommand::OpenTerminal
            } else {
                NormalCommand::AskToConnect(NoticeAction::ConnectTerminal)
            }
        },
        Key::Char('u') => {
            if connected {
                NormalCommand::Upload
            } else {
                NormalCommand::AskToConnect(NoticeAction::ConnectUpload)
            }
        },
        Key::Char('d') => {
            if connected {
                NormalCommand::Download
            } else {
                NormalCommand::AskToConnect(NoticeAction::ConnectDownload)
            }
        },
        Key::Char('o') => NormalCommand::ChangeMasterPassword,
        Key::Char('x') => {
            if count == 0 {
                NormalCommand::NoSavedConnections
            } else {
                NormalCommand::ConfirmDelete(selected)
            }
        },
        Key::Tab | Key::Down => {
            if selected < count && selected + 1 < count {
                NormalCommand::Select(selected + 1)
            } else {
                NormalCommand::Nothing
            }
        },
        Key::BackTab | Key::Up => {
            if selected > 0 {
                NormalCommand::Select(selected - 1)
            } else {
                NormalCommand::Nothing
            }
        },
        Key::Left => {
            if page > 0 {
                NormalCommand::HistoryPage(page - 1)
            } else {
                NormalCommand::Nothing
            }
        },
        Key::Right => {
            if selected < count && page < max_page {
                NormalCommand::HistoryPage(page + 1)
            } else {
                NormalCommand::Nothing
            }
        },
        _ => NormalCommand::Nothing,
    }
}

/// Each transfer and terminal command on the main screen has its own key:
/// on a connected selection 'u' uploads, 'd' downloads and 't' opens a
/// terminal, and no other key gives these commands.
pub proof fn lemma_transfer_keys(code: Key, selected: usize, count: usize, connected: bool, page: usize, max_page: usize)
    ensures
        connected ==> spec_normal_command(Key::Char('u'), selected, count, connected, page, max_page)
            == NormalCommand::Upload,
        connected ==> spec_normal_command(Key::Char('d'), selected, count, connected, page, max_page)
            == NormalCommand::Download,
        connected ==> spec_normal_command(Key::Char('t'), selected, count, connected, page, max_page)
            == NormalCommand::OpenTerminal,
        spec_normal_command(code, selected, count, connected, page, max_page) == NormalCommand::Upload
            ==> code == Key::Char('u'),
        spec_normal_command(code, selected, count, connected, page, max_page) == NormalCommand::Download
            ==> code == Key::Char('d'),
        spec_normal_command(code, selected, count, connected, page, max_page) == NormalCommand::OpenTerminal
            ==> code == Key::Char('t'),
{
}

/// The command a key gives in the delete confirmation.
#[derive(Debug, Clone, Copy, PartialEq, Eq, Structural)]
pub enum DeleteCommand {
    Cancel,
    Confirm,
    Nothing,
}

/// Esc and `n` cancel the removal; Enter and `y` confirm it.
pub fn delete_command(code: Key) -> (r: DeleteCommand)
    ensures
        (code == Key::Esc || code == Key::Char('n')) ==> r == DeleteCommand::Cancel,
        (code == Key::Enter || code == Key::Char('y')) ==> r == DeleteCommand::Confirm,
        !(code == Key::Esc || code == Key::Char('n') || code == Key::Enter || code == Key::Char(
            'y',
        )) ==> r == DeleteCommand::Nothing,
{
    match code {
        Key::Esc | Key::Char('n') => DeleteCommand::Cancel,
        Key::Enter | Key::Char('y') => DeleteCommand::Confirm,
        _ => DeleteCommand::Nothing,
    }
}

/// The command a key gives in the transfer confirmation.
#[derive(Debug, Clone, Copy, PartialEq, Eq, Structural)]
pub enum TransferCommand {
    /// Ask the running transfer to stop.
    CancelRunning,
    /// Hide the running transfer.
    Hide,
    /// Drop the transfer before it starts.
    Abort,
    /// Start the transfer.
    Start,
    /// Go back to the choice of target.
    BackToTarget,
    Nothing,
}

/// While a transfer runs, Esc cancels it and Enter hides it; before it
/// starts, Esc drops it, Enter starts it and `b` goes back to the target.
pub fn transfer_command(step: TransferStep, code: Key) -> (r: TransferCommand)
    ensures
        step == TransferStep::Transferring ==> r == (if code == Key::Esc {
            TransferCommand::CancelRunning
        } else if code == Key::Enter {
            TransferCommand::Hide
        } else {
            TransferCommand::Nothing
        }),
        step != TransferStep::Transferring ==> r == (if code == Key::Esc {
            TransferCommand::Abort
        } else if code == Key::Enter {
            TransferCommand::Start
        } else if code == Key::Char('b') {
            TransferCommand::BackToTarget
        } else {
            TransferCommand::Nothing
        }),
{
    if step == TransferStep::Transferring {
        return match code {
            Key::Esc => TransferCommand::CancelRunning,
            Key::Enter => TransferCommand::Hide,
            _ => TransferCommand::Nothing,
        };
    }
    match code {
        Key::Esc => TransferCommand::Abort,
        Key::Enter => TransferCommand::Start,
        Key::Char('b') => TransferCommand::BackToTarget,
        _ => TransferCommand::Nothing,
    }
}

/// Whether a remote picker opened now lists directories only: when it
/// chooses the target of an upload.
pub fn remote_picker_only_dirs(transfer: Option<(TransferDirection, TransferStep)>) -> (r: bool)
    ensures
        r == (transfer == Some((TransferDirection::Upload, TransferStep::PickTarget))),
{
    match transfer {
        Some((TransferDirection::Upload, TransferStep::PickTarget)) => true,
        _ => false,
    }
}

/// Three presses of the view key bring the header back to what it showed.
pub proof fn lemma_header_mode_cycles(mode: HeaderMode)
    ensures
        next_header_mode(next_header_mode(next_header_mode(mode))) == mode,
{
}

} // verus!
