use super_simple_ssh::commands::{
    closes_try_result, cycle_header_mode, delete_command, normal_command, notice_action_label,
    remote_picker_only_dirs, route_key, transfer_command, DeleteCommand, HeaderMode, KeyRoute,
    NormalCommand, NoticeAction, NoticeFollowUp, NoticeState, TransferCommand,
};
use super_simple_ssh::keys::Key;
use super_simple_ssh::model::{Mode, Notice, TransferDirection, TransferStep};

fn notice() -> Notice {
    Notice {
        title: "Not connected".to_string(),
        message: "Please connect to the host machine first.".to_string(),
    }
}

#[test]
fn header_mode_cycles_through_three() {
    let mut mode = HeaderMode::Help;
    mode = cycle_header_mode(mode);
    assert_eq!(mode, HeaderMode::Logs);
    mode = cycle_header_mode(mode);
    assert_eq!(mode, HeaderMode::Off);
    mode = cycle_header_mode(mode);
    assert_eq!(mode, HeaderMode::Help);
}

#[test]
fn notice_labels() {
    assert_eq!(notice_action_label(None), None);
    assert_eq!(
        notice_action_label(Some(NoticeAction::ConnectTerminal)),
        Some("connect and open the terminal")
    );
    assert_eq!(
        notice_action_label(Some(NoticeAction::ConnectUpload)),
        Some("connect and select what to upload")
    );
    assert_eq!(
        notice_action_label(Some(NoticeAction::ConnectDownload)),
        Some("connect and select what to download")
    );
}

#[test]
fn notice_keys() {
    let mut state = NoticeState::new();
    state.show(notice(), Some(NoticeAction::ConnectUpload));
    assert!(state.is_open());
    assert_eq!(state.handle_key(Key::Char('x')), None);
    assert!(state.is_open());
    assert_eq!(
        state.handle_key(Key::Enter),
        Some(NoticeFollowUp::ConnectThen(NoticeAction::ConnectUpload))
    );
    assert!(!state.is_open());
    assert_eq!(state.action, None);

    state.show(notice(), Some(NoticeAction::ConnectTerminal));
    assert_eq!(state.handle_key(Key::Esc), None);
    assert!(!state.is_open());
    assert_eq!(state.action, Some(NoticeAction::ConnectTerminal));

    state.show(notice(), None);
    assert_eq!(state.handle_key(Key::Char('c')), Some(NoticeFollowUp::ConnectOnly));
    assert_eq!(state.action, None);
    state.show(notice(), None);
    assert_eq!(state.handle_key(Key::Enter), None);
}

#[test]
fn keys_route_to_the_right_place() {
    let pick = Some(TransferStep::PickSource);
    assert_eq!(route_key(true, pick, true, true, false, true, true, Mode::Normal), KeyRoute::Notice);
    assert_eq!(route_key(false, pick, true, false, false, false, false, Mode::Normal), KeyRoute::FilePicker);
    assert_eq!(route_key(false, pick, false, true, false, false, false, Mode::Normal), KeyRoute::RemotePicker);
    assert_eq!(
        route_key(false, Some(TransferStep::Confirm), false, false, false, false, false, Mode::Normal),
        KeyRoute::TransferConfirm
    );
    assert_eq!(
        route_key(false, Some(TransferStep::Transferring), false, false, false, false, false, Mode::Normal),
        KeyRoute::TransferConfirm
    );
    assert_eq!(
        route_key(false, Some(TransferStep::Transferring), false, false, true, false, false, Mode::Normal),
        KeyRoute::Normal
    );
    assert_eq!(route_key(false, pick, false, false, false, false, false, Mode::Normal), KeyRoute::Normal);
    assert_eq!(route_key(false, None, true, false, false, false, false, Mode::NewConnection), KeyRoute::FilePicker);
    assert_eq!(route_key(false, None, false, false, false, true, false, Mode::NewConnection), KeyRoute::KeyPicker);
    assert_eq!(route_key(false, None, false, false, false, false, true, Mode::NewConnection), KeyRoute::TryResult);
    assert_eq!(route_key(false, None, false, false, false, false, false, Mode::NewConnection), KeyRoute::NewConnection);
    assert_eq!(
        route_key(false, None, false, false, false, false, false, Mode::ChangeMasterPassword),
        KeyRoute::MasterPassword
    );
    assert_eq!(route_key(false, None, false, true, false, false, false, Mode::ConfirmDelete), KeyRoute::ConfirmDelete);
    assert!(closes_try_result(Key::Esc));
    assert!(!closes_try_result(Key::Tab));
}

#[test]
fn main_screen_commands() {
    assert_eq!(normal_command(Key::Char('q'), 0, 0, false, 0, 0), NormalCommand::Quit);
    assert_eq!(normal_command(Key::Char('n'), 0, 0, false, 0, 0), NormalCommand::NewConnection);
    assert_eq!(normal_command(Key::Char('e'), 1, 3, false, 0, 0), NormalCommand::EditConnection(1));
    assert_eq!(normal_command(Key::Char('e'), 0, 0, false, 0, 0), NormalCommand::NoSelection);
    assert_eq!(normal_command(Key::Char('c'), 0, 1, true, 0, 0), NormalCommand::Disconnect);
    assert_eq!(normal_command(Key::Char('c'), 0, 1, false, 0, 0), NormalCommand::Connect);
    assert_eq!(normal_command(Key::Char('v'), 0, 1, false, 0, 0), NormalCommand::CycleHeader);
    assert_eq!(normal_command(Key::Char('t'), 0, 1, true, 0, 0), NormalCommand::OpenTerminal);
    assert_eq!(
        normal_command(Key::Char('t'), 0, 1, false, 0, 0),
        NormalCommand::AskToConnect(NoticeAction::ConnectTerminal)
    );
    assert_eq!(normal_command(Key::Char('u'), 0, 1, true, 0, 0), NormalCommand::Upload);
    assert_eq!(
        normal_command(Key::Char('d'), 0, 1, false, 0, 0),
        NormalCommand::AskToConnect(NoticeAction::ConnectDownload)
    );
    assert_eq!(normal_command(Key::Char('o'), 0, 1, false, 0, 0), NormalCommand::ChangeMasterPassword);
    assert_eq!(normal_command(Key::Char('x'), 0, 0, false, 0, 0), NormalCommand::NoSavedConnections);
    assert_eq!(normal_command(Key::Char('x'), 2, 3, false, 0, 0), NormalCommand::ConfirmDelete(2));
    assert_eq!(normal_command(Key::Tab, 0, 3, false, 0, 0), NormalCommand::Select(1));
    assert_eq!(normal_command(Key::Down, 2, 3, false, 0, 0), NormalCommand::Nothing);
    assert_eq!(normal_command(Key::BackTab, 2, 3, false, 0, 0), NormalCommand::Select(1));
    assert_eq!(normal_command(Key::Up, 0, 3, false, 0, 0), NormalCommand::Nothing);
    assert_eq!(normal_command(Key::Left, 0, 3, false, 2, 4), NormalCommand::HistoryPage(1));
    assert_eq!(normal_command(Key::Left, 0, 3, false, 0, 4), NormalCommand::Nothing);
    assert_eq!(normal_command(Key::Right, 0, 3, false, 2, 4), NormalCommand::HistoryPage(3));
    assert_eq!(normal_command(Key::Right, 0, 3, false, 4, 4), NormalCommand::Nothing);
    assert_eq!(normal_command(Key::Right, 5, 3, false, 0, 4), NormalCommand::Nothing);
    assert_eq!(normal_command(Key::Char('z'), 0, 3, false, 0, 4), NormalCommand::Nothing);
}

#[test]
fn delete_confirmation_keys() {
    assert_eq!(delete_command(Key::Esc), DeleteCommand::Cancel);
    assert_eq!(delete_command(Key::Char('n')), DeleteCommand::Cancel);
    assert_eq!(delete_command(Key::Enter), DeleteCommand::Confirm);
    assert_eq!(delete_command(Key::Char('y')), DeleteCommand::Confirm);
    assert_eq!(delete_command(Key::Char('Y')), DeleteCommand::Nothing);
}

#[test]
fn transfer_confirmation_keys() {
    assert_eq!(transfer_command(TransferStep::Transferring, Key::Esc), TransferCommand::CancelRunning);
    assert_eq!(transfer_command(TransferStep::Transferring, Key::Enter), TransferCommand::Hide);
    assert_eq!(transfer_command(TransferStep::Transferring, Key::Char('b')), TransferCommand::Nothing);
    assert_eq!(transfer_command(TransferStep::Confirm, Key::Esc), TransferCommand::Abort);
    assert_eq!(transfer_command(TransferStep::Confirm, Key::Enter), TransferCommand::Start);
    assert_eq!(transfer_command(TransferStep::Confirm, Key::Char('b')), TransferCommand::BackToTarget);
    assert!(remote_picker_only_dirs(Some((TransferDirection::Upload, TransferStep::PickTarget))));
    assert!(!remote_picker_only_dirs(Some((TransferDirection::Download, TransferStep::PickSource))));
    assert!(!remote_picker_only_dirs(None));
}
