//! The pickers: remote directories over SSH, local files and directories,
//! and keys saved connections already use.
use vstd::prelude::*;

use crate::keys::Key;
use crate::listing::entry_view;
use crate::model::{KeyCandidate, RemoteEntry, TransferDirection, TransferStep};
use crate::text::{parent_remote_dir, spec_parent_remote_dir};

verus! {

/// The selection after Up: one row higher where there is one.
pub open spec fn moved_up(selected: usize) -> usize {
    if selected > 0 {
        (selected - 1) as usize
    } else {
        selected
    }
}

/// The selection after Down: one row lower where there is one.
pub open spec fn moved_down(selected: usize, len: nat) -> usize {
    if selected + 1 < len {
        (selected + 1) as usize
    } else {
        selected
    }
}

/// The selection after Up.
pub fn move_up(selected: usize) -> (r: usize)
    ensures
        r == moved_up(selected),
{
    if selected > 0 {
        selected - 1
    } else {
        selected
    }
}

/// The selection after Down in a list of `len` rows.
pub fn move_down(selected: usize, len: usize) -> (r: usize)
    ensures
        r == moved_down(selected, len as nat),
{
    if selected < len && selected + 1 < len {
        selected + 1
    } else {
        selected
    }
}

/// The entries of a listing, as values.
pub open spec fn entries_view(entries: Seq<RemoteEntry>) -> Seq<(Seq<char>, Seq<char>, bool)> {
    entries.map_values(|e: RemoteEntry| entry_view(e))
}

/// The directories of a listing, in order.
pub open spec fn only_directories(entries: Seq<RemoteEntry>) -> Seq<(Seq<char>, Seq<char>, bool)> {
    entries_view(entries).filter(|e: (Seq<char>, Seq<char>, bool)| e.2)
}

/// The remote directory picker.
pub struct RemotePickerState {
    pub cwd: String,
    pub entries: Vec<RemoteEntry>,
    pub selected: usize,
    pub loading: bool,
    pub error: Option<String>,
    pub only_dirs: bool,
    pub show_hidden: bool,
}

/// What the application does after a key in the remote picker.
#[derive(Debug, Clone, PartialEq, Eq)]
pub enum RemotePickerCommand {
    /// Nothing beyond the change to the picker.
    Stay,
    /// Close the picker, and drop the transfer where there is one.
    Close { cancel_transfer: bool },
    /// Close the picker and choose the source of the upload again.
    BackToLocalSource,
    /// List this directory; the picker now shows it, loading.
    Fetch(String),
    /// Open this directory once it is known to have subdirectories.
    CheckSubdirs(String),
    /// Download this file; remember `dir` as the last remote directory.
    ChooseDownloadSource { dir: String, path: String },
    /// Upload into this directory, which becomes the last remote directory.
    ChooseUploadTarget(String),
    /// Download this directory, which becomes the last remote directory.
    ChooseDownloadSourceDir(String),
}

/// The picker shows `cwd`, loading, with nothing selected yet.
pub open spec fn is_loading_at(p: RemotePickerState, cwd: Seq<char>) -> bool {
    &&& p.cwd@ == cwd
    &&& p.entries@.len() == 0
    &&& p.selected == 0
    &&& p.loading
    &&& p.error is None
}

/// Everything but the selection stays.
pub open spec fn same_but_selection(a: RemotePickerState, b: RemotePickerState) -> bool {
    &&& a.cwd == b.cwd
    &&& a.entries == b.entries
    &&& a.loading == b.loading
    &&& a.error == b.error
    &&& a.only_dirs == b.only_dirs
    &&& a.show_hidden == b.show_hidden
}

impl RemotePickerState {
    /// A picker that starts to load `cwd`.
    pub fn open_at(cwd: String, only_dirs: bool) -> (r: Self)
        ensures
            is_loading_at(r, cwd@),
            r.only_dirs == only_dirs,
            !r.show_hidden,
    {
        RemotePickerState {
            cwd,
            entries: Vec::new(),
            selected: 0,
            loading: true,
            error: None,
            only_dirs,
            show_hidden: false,
        }
    }

    /// Moves to `cwd` and starts to load it.
    pub fn reset_to(&mut self, cwd: String)
        ensures
            is_loading_at(*final(self), cwd@),
            final(self).only_dirs == old(self).only_dirs,
            final(self).show_hidden == old(self).show_hidden,
    {
        self.cwd = cwd;
        self.entries = Vec::new();
        self.selected = 0;
        self.loading = true;
        self.error = None;
    }

    /// Takes a listing that was loaded at once.
    pub fn apply_listing(&mut self, entries: Vec<RemoteEntry>)
        ensures
            final(self).entries == entries,
            !final(self).loading,
            final(self).error is None,
            final(self).cwd == old(self).cwd,
            final(self).selected == old(self).selected,
            final(self).only_dirs == old(self).only_dirs,
            final(self).show_hidden == old(self).show_hidden,
    {
        self.entries = entries;
        self.loading = false;
        self.error = None;
    }

    /// Takes the answer of a listing that ran in the background: its
    /// entries (the directories alone where the picker lists only those),
    /// or its error, which leaves the entries as they were.
    pub fn apply_fetch(&mut self, result: Result<Vec<RemoteEntry>, String>)
        ensures
            !final(self).loading,
            final(self).cwd == old(self).cwd,
            final(self).selected == old(self).selected,
            final(self).only_dirs == old(self).only_dirs,
            final(self).show_hidden == old(self).show_hidden,
            match result {
                Ok(entries) => final(self).error is None && entries_view(final(self).entries@) == if old(
                    self,
                ).only_dirs {
                    only_directories(entries@)
                } else {
                    entries_view(entries@)
                },
                Err(e) => final(self).error == Some(e) && final(self).entries == old(self).entries,
            },
    {
        self.loading = false;
        match result {
            Ok(entries) => {
                if self.only_dirs {
                    let mut kept: Vec<RemoteEntry> = Vec::new();
                    let mut i: usize = 0;
                    while i < entries.len()
                        invariant
                            i <= entries@.len(),
                            entries_view(kept@) == entries_view(entries@.take(i as int)).filter(
                                |e: (Seq<char>, Seq<char>, bool)| e.2,
                            ),
                        decreases entries@.len() - i,
                    {
                        let ghost before = kept@;
                        let e = &entries[i];
                        proof {
                            let f = |e: (Seq<char>, Seq<char>, bool)| e.2;
                            assert(entries@.take(i + 1) =~= entries@.take(i as int).push(entries@[i as int]));
                            assert(entries_view(entries@.take(i + 1)) =~= entries_view(
                                entries@.take(i as int),
                            ).push(entry_view(entries@[i as int])));
                            entries_view(entries@.take(i as int)).lemma_filter_push(
                                entry_view(entries@[i as int]),
                                f,
                            );
                        }
                        if e.is_dir {
                            let copy = RemoteEntry {
                                name: e.name.clone(),
                                path: e.path.clone(),
                                is_dir: e.is_dir,
                            };
                            kept.push(copy);
                            assert(entries_view(kept@) =~= entries_view(before).push(
                                entry_view(entries@[i as int]),
                            ));
                        }
                        i = i + 1;
                    }
                    assert(entries@.take(entries@.len() as int) =~= entries@);
                    self.entries = kept;
                } else {
                    self.entries = entries;
                }
                self.error = None;
            },
            Err(e) => {
                self.error = Some(e);
            },
        }
    }

    /// Applies a key to the picker during a transfer in `transfer` (if
    /// any) and says what the application does next.
    pub fn handle_key(&mut self, code: Key, transfer: Option<(TransferDirection, TransferStep)>) -> (r:
        RemotePickerCommand)
        ensures
            ({
                let o = *old(self);
                let f = *final(self);
                let at = if o.selected < o.entries@.len() {
                    Some(o.entries@[o.selected as int])
                } else {
                    None
                };
                match code {
                    Key::Esc => r == RemotePickerCommand::Close { cancel_transfer: transfer is Some }
                        && f == o,
                    Key::Char('b') => if transfer == Some(
                        (TransferDirection::Upload, TransferStep::PickTarget),
                    ) {
                        r == RemotePickerCommand::BackToLocalSource && f == o
                    } else {
                        r == RemotePickerCommand::Stay && f == o
                    },
                    Key::Up => r == RemotePickerCommand::Stay && f.selected == moved_up(o.selected)
                        && same_but_selection(f, o),
                    Key::Down => r == RemotePickerCommand::Stay && f.selected == moved_down(
                        o.selected,
                        o.entries@.len(),
                    ) && same_but_selection(f, o),
                    Key::Backspace => if o.cwd@ != "/"@ {
                        r matches RemotePickerCommand::Fetch(d) && d@ == spec_parent_remote_dir(o.cwd@)
                            && is_loading_at(f, d@) && f.only_dirs == o.only_dirs
                            && f.show_hidden == o.show_hidden
                    } else {
                        r == RemotePickerCommand::Stay && f == o
                    },
                    Key::Enter => match at {
                        Some(e) => if e.is_dir && o.only_dirs {
                            r matches RemotePickerCommand::CheckSubdirs(d) && d@ == e.path@ && f == o
                        } else if e.is_dir {
                            r matches RemotePickerCommand::Fetch(d) && d@ == e.path@ && is_loading_at(
                                f,
                                d@,
                            ) && f.only_dirs == o.only_dirs && f.show_hidden == o.show_hidden
                        } else if transfer == Some(
                            (TransferDirection::Download, TransferStep::PickSource),
                        ) {
                            r matches RemotePickerCommand::ChooseDownloadSource { dir, path } && dir@
                                == o.cwd@ && path@ == e.path@ && f == o
                        } else {
                            r == RemotePickerCommand::Stay && f == o
                        },
                        None => r == RemotePickerCommand::Stay && f == o,
                    },
                    Key::Char('s') => match at {
                        Some(e) => if e.is_dir && transfer == Some(
                            (TransferDirection::Upload, TransferStep::PickTarget),
                        ) {
                            r matches RemotePickerCommand::ChooseUploadTarget(d) && d@ == e.path@
                                && f == o
                        } else if e.is_dir && transfer == Some(
                            (TransferDirection::Download, TransferStep::PickSource),
                        ) {
                            r matches RemotePickerCommand::ChooseDownloadSourceDir(d) && d@
                                == e.path@ && f == o
                        } else {
                            r == RemotePickerCommand::Stay && f == o
                        },
                        None => r == RemotePickerCommand::Stay && f == o,
                    },
                    _ => r == RemotePickerCommand::Stay && f == o,
                }
            }),
    {
        match code {
            Key::Esc => RemotePickerCommand::Close { cancel_transfer: transfer.is_some() },
            Key::Char('b') => {
                match transfer {
                    Some((TransferDirection::Upload, TransferStep::PickTarget)) => {
                        RemotePickerCommand::BackToLocalSource
                    },
                    _ => RemotePickerCommand::Stay,
                }
            },
            Key::Up => {
                self.selected = move_up(self.selected);
                RemotePickerCommand::Stay
            },
            Key::Down => {
                self.selected = move_down(self.selected, self.entries.len());
                RemotePickerCommand::Stay
            },
            Key::Backspace => {
                let root = crate::text::from_chars(&['/']);
                if crate::text::same_text(self.cwd.as_str(), root.as_str()) {
                    proof {
                        assert(root@ =~= "/"@) by {
                            reveal_strlit("/");
                        }
                    }
                    RemotePickerCommand::Stay
                } else {
                    proof {
                        assert(root@ =~= "/"@) by {
                            reveal_strlit("/");
                        }
                    }
                    let new_cwd = parent_remote_dir(self.cwd.as_str());
                    let fetch = new_cwd.clone();
                    self.reset_to(new_cwd);
                    RemotePickerCommand::Fetch(fetch)
                }
            },
            Key::Enter => {
                if self.selected >= self.entries.len() {
                    return RemotePickerCommand::Stay;
                }
                let is_dir = self.entries[self.selected].is_dir;
                let path = self.entries[self.selected].path.clone();
                if is_dir {
                    if self.only_dirs {
                        RemotePickerCommand::CheckSubdirs(path)
                    } else {
                        let fetch = path.clone();
                        self.reset_to(path);
                        RemotePickerCommand::Fetch(fetch)
                    }
                } else {
                    match transfer {
                        Some((TransferDirection::Download, TransferStep::PickSource)) => {
                            RemotePickerCommand::ChooseDownloadSource { dir: self.cwd.clone(), path }
                        },
                        _ => RemotePickerCommand::Stay,
                    }
                }
            },
            Key::Char('s') => {
                if self.selected >= self.entries.len() {
                    return RemotePickerCommand::Stay;
                }
                if !self.entries[self.selected].is_dir {
                    return RemotePickerCommand::Stay;
                }
                let path = self.entries[self.selected].path.clone();
                match transfer {
                    Some((TransferDirection::Upload, TransferStep::PickTarget)) => {
                        RemotePickerCommand::ChooseUploadTarget(path)
                    },
                    Some((TransferDirection::Download, TransferStep::PickSource)) => {
                        RemotePickerCommand::ChooseDownloadSourceDir(path)
                    },
                    _ => RemotePickerCommand::Stay,
                }
            },
            _ => RemotePickerCommand::Stay,
        }
    }
}

/// What the application does after a key in the local file picker.
#[derive(Debug, Clone, Copy, PartialEq, Eq, Structural)]
pub enum FilePickerCommand {
    Stay,
    /// Close the picker, and drop the transfer where there is one.
    Close { cancel_transfer: bool },
    /// Close the picker and choose the source of the download again.
    BackToRemoteSource,
    /// Select this row.
    Select(usize),
    /// Show the parent directory.
    OpenParent,
    /// Show the directory of this row; where `check_subdirs`, only once it
    /// is known to have subdirectories.
    OpenDir { index: usize, check_subdirs: bool },
    /// Upload the file of this row.
    ChooseUploadFile(usize),
    /// Use the file of this row as the private key.
    ChooseKeyFile(usize),
    /// Upload the directory of this row.
    ChooseUploadDir(usize),
    /// Download into the directory of this row.
    ChooseDownloadTarget(usize),
}

/// The command a key gives in the local picker, where `is_dir` tells which
/// rows are directories and `selected` is the selected row. During the
/// choice of a download target the picker lists directories only.
pub open spec fn spec_file_picker_command(code: Key, transfer: Option<(TransferDirection, TransferStep)>, selected: usize, is_dir: Seq<bool>) -> FilePickerCommand {
    let download_target = transfer == Some((TransferDirection::Download, TransferStep::PickTarget));
    match code {
        Key::Char('b') => if download_target {
            FilePickerCommand::BackToRemoteSource
        } else {
            FilePickerCommand::Stay
        },
        Key::Esc => FilePickerCommand::Close { cancel_transfer: transfer is Some },
        Key::Up => FilePickerCommand::Select(moved_up(selected)),
        Key::Down => FilePickerCommand::Select(moved_down(selected, is_dir.len())),
        Key::Backspace => FilePickerCommand::OpenParent,
        Key::Enter => if selected < is_dir.len() {
            if is_dir[selected as int] {
                FilePickerCommand::OpenDir { index: selected, check_subdirs: download_target }
            } else if transfer is None {
                FilePickerCommand::ChooseKeyFile(selected)
            } else if transfer == Some((TransferDirection::Upload, TransferStep::PickSource)) {
                FilePickerCommand::ChooseUploadFile(selected)
            } else {
                FilePickerCommand::Stay
            }
        } else {
            FilePickerCommand::Stay
        },
        Key::Char('s') => if selected < is_dir.len() && is_dir[selected as int] {
            if transfer == Some((TransferDirection::Upload, TransferStep::PickSource)) {
                FilePickerCommand::ChooseUploadDir(selected)
            } else if download_target {
                FilePickerCommand::ChooseDownloadTarget(selected)
            } else {
                FilePickerCommand::Stay
            }
        } else {
            FilePickerCommand::Stay
        },
        _ => FilePickerCommand::Stay,
    }
}

/// The command a key gives in the local picker.
pub fn file_picker_command(code: Key, transfer: Option<(TransferDirection, TransferStep)>, selected: usize, is_dir: &Vec<bool>) -> (r: FilePickerCommand)
    ensures
        r == spec_file_picker_command(code, transfer, selected, is_dir@),
{
    let download_target = match transfer {
        Some((TransferDirection::Download, TransferStep::PickTarget)) => true,
        _ => false,
    };
    let upload_source = match transfer {
        Some((TransferDirection::Upload, TransferStep::PickSource)) => true,
        _ => false,
    };
    match code {
        Key::Char('b') => {
            if download_target {
                FilePickerCommand::BackToRemoteSource
            } else {
                FilePickerCommand::Stay
            }
        },
        Key::Esc => FilePickerCommand::Close { cancel_transfer: transfer.is_some() },
        Key::Up => FilePickerCommand::Select(move_up(selected)),
        Key::Down => FilePickerCommand::Select(move_down(selected, is_dir.len())),
        Key::Backspace => FilePickerCommand::OpenParent,
        Key::Enter => {
            if selected >= is_dir.len() {
                FilePickerCommand::Stay
            } else if is_dir[selected] {
                FilePickerCommand::OpenDir { index: selected, check_subdirs: download_target }
            } else if transfer.is_none() {
                FilePickerCommand::ChooseKeyFile(selected)
            } else if upload_source {
                FilePickerCommand::ChooseUploadFile(selected)
            } else {
                FilePickerCommand::Stay
            }
        },
        Key::Char('s') => {
            if selected >= is_dir.len() || !is_dir[selected] {
                FilePickerCommand::Stay
            } else if upload_source {
                FilePickerCommand::ChooseUploadDir(selected)
            } else if download_target {
                FilePickerCommand::ChooseDownloadTarget(selected)
            } else {
                FilePickerCommand::Stay
            }
        },
        _ => FilePickerCommand::Stay,
    }
}

/// The picker of keys saved connections already use.
pub struct KeyPickerState {
    pub keys: Vec<KeyCandidate>,
    pub selected: usize,
}

/// What the application does after a key in the key picker.
#[derive(Debug, Clone, Copy, PartialEq, Eq, Structural)]
pub enum KeyPickerCommand {
    Stay,
    Close,
    /// Use the key of this row and close the picker.
    Choose(usize),
}

impl KeyPickerState {
    /// Applies a key to the picker and says what the application does next.
    pub fn handle_key(&mut self, code: Key) -> (r: KeyPickerCommand)
        ensures
            final(self).keys == old(self).keys,
            code == Key::Esc ==> r == KeyPickerCommand::Close && final(self).selected == old(
                self,
            ).selected,
            code == Key::Up ==> r == KeyPickerCommand::Stay && final(self).selected == moved_up(
                old(self).selected,
            ),
            code == Key::Down ==> r == KeyPickerCommand::Stay && final(self).selected == moved_down(
                old(self).selected,
                old(self).keys@.len(),
            ),
            code == Key::Enter ==> final(self).selected == old(self).selected && r == if old(
                self,
            ).selected < old(self).keys@.len() {
                KeyPickerCommand::Choose(old(self).selected)
            } else {
                KeyPickerCommand::Stay
            },
            code != Key::Esc && code != Key::Up && code != Key::Down && code != Key::Enter ==> r
                == KeyPickerCommand::Stay && final(self).selected == old(self).selected,
    {
        match code {
            Key::Esc => KeyPickerCommand::Close,
            Key::Up => {
                self.selected = move_up(self.selected);
                KeyPickerCommand::Stay
            },
            Key::Down => {
                self.selected = move_down(self.selected, self.keys.len());
                KeyPickerCommand::Stay
            },
            Key::Enter => {
                if self.selected < self.keys.len() {
                    KeyPickerCommand::Choose(self.selected)
                } else {
                    KeyPickerCommand::Stay
                }
            },
            _ => KeyPickerCommand::Stay,
        }
    }
}

/// Moving the selection up or down keeps a selected row within the list.
pub proof fn lemma_selection_stays_in_list(selected: usize, len: nat)
    requires
        selected < len,
    ensures
        moved_up(selected) < len,
        moved_down(selected, len) < len,
{
}

} // verus!
