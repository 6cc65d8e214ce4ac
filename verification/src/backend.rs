//! The remote side as the pickers see it: listings, the home directory and
//! sizes, from a live session or from a stand-in that answers what it was
//! told; and how a remote picker opens when its first directory fails.
use vstd::prelude::*;

use crate::listing::entry_view;
use crate::model::{ConnectionConfig, RemoteEntry, opt_view};
use crate::pickers::{RemotePickerState, entries_view, is_loading_at};
use crate::text::{from_chars, is_blank, trim_text, trimmed};

verus! {

/// What the application asks of the remote side of a connection.
///
/// The remote side answers as it will, so nothing is claimed of an answer;
/// each backend names what it answers a request with (`listing_answer`,
/// `home_answer`), which lets callers tie their results to the answers of
/// the requests they made.
pub trait SshBackend {
    /// `answer` is what this backend answers a listing of `cwd` with these
    /// filters.
    open spec fn listing_answer(&self, conn: ConnectionConfig, cwd: Seq<char>, only_dirs: bool, show_hidden: bool, answer: Result<Vec<RemoteEntry>, String>) -> bool {
        true
    }

    /// `answer` is what this backend answers a request for the home
    /// directory with.
    open spec fn home_answer(&self, conn: ConnectionConfig, answer: Result<Option<String>, String>) -> bool {
        true
    }

    /// The entries of remote directory `cwd`, or why they could not be read.
    fn list_remote_dir(&self, conn: &ConnectionConfig, cwd: &str, only_dirs: bool, show_hidden: bool) -> (r: Result<Vec<RemoteEntry>, String>)
        ensures
            self.listing_answer(*conn, cwd@, only_dirs, show_hidden, r),
    ;

    /// The home directory of the remote user, where it is known and not
    /// blank.
    fn remote_home_dir(&self, conn: &ConnectionConfig) -> (r: Result<Option<String>, String>)
        ensures
            self.home_answer(*conn, r),
    ;

    /// Whether remote directory `path` has a subdirectory.
    fn remote_has_subdirectories(&self, conn: &ConnectionConfig, path: &str) -> Result<bool, String>;

    /// The size of a remote file, or of all files under a remote directory.
    fn remote_size(&self, conn: &ConnectionConfig, path: &str, is_dir: bool) -> Result<u64, String>;
}

/// The value of the newest pair with key `key`.
pub open spec fn newest<V>(pairs: Seq<(String, V)>, key: Seq<char>) -> Option<V>
    decreases pairs.len(),
{
    if pairs.len() == 0 {
        None
    } else if pairs.last().0@ == key {
        Some(pairs.last().1)
    } else {
        newest(pairs.drop_last(), key)
    }
}

/// A stand-in for the remote side that answers what it was told.
pub struct MockSshBackend {
    list: Vec<(String, Vec<RemoteEntry>)>,
    list_errors: Vec<(String, String)>,
    home: Option<String>,
    has_subdirs: bool,
    size: u64,
    size_error: Option<String>,
}

/// A copy of remote entries.
pub fn copy_entries(entries: &Vec<RemoteEntry>) -> (r: Vec<RemoteEntry>)
    ensures
        entries_view(r@) == entries_view(entries@),
{
    let mut out: Vec<RemoteEntry> = Vec::new();
    let mut i: usize = 0;
    while i < entries.len()
        invariant
            i <= entries@.len(),
            entries_view(out@) == entries_view(entries@.take(i as int)),
        decreases entries@.len() - i,
    {
        let e = &entries[i];
        let ghost before = out@;
        let copy = RemoteEntry { name: e.name.clone(), path: e.path.clone(), is_dir: e.is_dir };
        assert(entry_view(copy) == entry_view(entries@[i as int]));
        out.push(copy);
        proof {
            assert(entries@.take(i + 1) =~= entries@.take(i as int).push(entries@[i as int]));
            assert(entries_view(entries@.take(i + 1)) =~= entries_view(entries@.take(i as int)).push(
                entry_view(entries@[i as int]),
            ));
            assert(entries_view(out@) =~= entries_view(before).push(entry_view(copy)));
        }
        i = i + 1;
    }
    assert(entries@.take(entries@.len() as int) =~= entries@);
    out
}

fn newest_index<V>(pairs: &Vec<(String, V)>, key: &str) -> (r: Option<usize>)
    ensures
        match r {
            Some(i) => i < pairs@.len() && newest(pairs@, key@) == Some(pairs@[i as int].1),
            None => newest(pairs@, key@) is None,
        },
{
    let mut k = pairs.len();
    assert(pairs@.take(k as int) =~= pairs@);
    while k > 0
        invariant
            k <= pairs@.len(),
            newest(pairs@, key@) == newest(pairs@.take(k as int), key@),
        decreases k,
    {
        let ghost prefix = pairs@.take(k as int);
        assert(prefix.drop_last() =~= pairs@.take(k - 1));
        if crate::text::same_text(pairs[k - 1].0.as_str(), key) {
            return Some(k - 1);
        }
        k = k - 1;
    }
    None
}

impl MockSshBackend {
    /// The listings the stand-in was told, newest last.
    pub closed spec fn listings(&self) -> Seq<(String, Vec<RemoteEntry>)> {
        self.list@
    }

    /// The listing errors the stand-in was told, newest last.
    pub closed spec fn listing_errors(&self) -> Seq<(String, String)> {
        self.list_errors@
    }

    /// The home directory the stand-in answers.
    pub closed spec fn home(&self) -> Option<String> {
        self.home
    }

    /// Whether the stand-in answers that directories have subdirectories.
    pub closed spec fn has_subdirs(&self) -> bool {
        self.has_subdirs
    }

    /// The size the stand-in answers, or the error it answers instead.
    pub closed spec fn size_answer(&self) -> Result<u64, String> {
        match self.size_error {
            Some(e) => Err(e),
            None => Ok(self.size),
        }
    }

    /// A stand-in that lists nothing, knows no home, finds no
    /// subdirectories and answers size 0.
    pub fn new() -> (r: Self)
        ensures
            r.listings().len() == 0,
            r.listing_errors().len() == 0,
            r.home() is None,
            !r.has_subdirs(),
            r.size_answer() == Ok::<u64, String>(0),
    {
        MockSshBackend {
            list: Vec::new(),
            list_errors: Vec::new(),
            home: None,
            has_subdirs: false,
            size: 0,
            size_error: None,
        }
    }

    /// Tells the stand-in what listing `path` answers: entries, or an
    /// error (which wins over entries for that path).
    pub fn set_list(&mut self, path: &str, result: Result<Vec<RemoteEntry>, String>)
        ensures
            match result {
                Ok(entries) => {
                    &&& final(self).listings().len() == old(self).listings().len() + 1
                    &&& final(self).listings().drop_last() == old(self).listings()
                    &&& final(self).listings().last().0@ == path@
                    &&& final(self).listings().last().1 == entries
                    &&& final(self).listing_errors() == old(self).listing_errors()
                },
                Err(e) => {
                    &&& final(self).listing_errors().len() == old(self).listing_errors().len() + 1
                    &&& final(self).listing_errors().drop_last() == old(self).listing_errors()
                    &&& final(self).listing_errors().last().0@ == path@
                    &&& final(self).listing_errors().last().1 == e
                    &&& final(self).listings() == old(self).listings()
                },
            },
            final(self).home() == old(self).home(),
            final(self).has_subdirs() == old(self).has_subdirs(),
            final(self).size_answer() == old(self).size_answer(),
    {
        match result {
            Ok(entries) => {
                self.list.push((String::from_str(path), entries));
            },
            Err(e) => {
                self.list_errors.push((String::from_str(path), e));
            },
        }
    }

    /// Tells the stand-in the home directory it answers.
    pub fn set_home(&mut self, home: Option<String>)
        ensures
            final(self).home() == home,
            final(self).listings() == old(self).listings(),
            final(self).listing_errors() == old(self).listing_errors(),
            final(self).has_subdirs() == old(self).has_subdirs(),
            final(self).size_answer() == old(self).size_answer(),
    {
        self.home = home;
    }

    /// Tells the stand-in whether directories have subdirectories.
    pub fn set_has_subdirs(&mut self, has: bool)
        ensures
            final(self).has_subdirs() == has,
            final(self).listings() == old(self).listings(),
            final(self).listing_errors() == old(self).listing_errors(),
            final(self).home() == old(self).home(),
            final(self).size_answer() == old(self).size_answer(),
    {
        self.has_subdirs = has;
    }

    /// Tells the stand-in the size it answers, or the error it answers
    /// instead; a size also clears an error.
    pub fn set_size(&mut self, result: Result<u64, String>)
        ensures
            match result {
                Ok(n) => final(self).size_answer() == Ok::<u64, String>(n),
                Err(e) => final(self).size_answer() == Err::<u64, String>(e),
            },
            final(self).listings() == old(self).listings(),
            final(self).listing_errors() == old(self).listing_errors(),
            final(self).home() == old(self).home(),
            final(self).has_subdirs() == old(self).has_subdirs(),
    {
        match result {
            Ok(size) => {
                self.size = size;
                self.size_error = None;
            },
            Err(e) => {
                self.size_error = Some(e);
            },
        }
    }
}

/// What the stand-in answers for a listing of `cwd`: the newest error told
/// for it, else the newest entries told for it, else no entries.
pub open spec fn mock_listing(b: MockSshBackend, cwd: Seq<char>) -> Result<Seq<(Seq<char>, Seq<char>, bool)>, Seq<char>> {
    match newest(b.listing_errors(), cwd) {
        Some(e) => Err(e@),
        None => match newest(b.listings(), cwd) {
            Some(entries) => Ok(entries_view(entries@)),
            None => Ok(Seq::empty()),
        },
    }
}

impl SshBackend for MockSshBackend {
    /// The stand-in answers a listing with what `mock_listing` gives.
    open spec fn listing_answer(&self, conn: ConnectionConfig, cwd: Seq<char>, only_dirs: bool, show_hidden: bool, answer: Result<Vec<RemoteEntry>, String>) -> bool {
        match (answer, mock_listing(*self, cwd)) {
            (Ok(v), Ok(s)) => entries_view(v@) == s,
            (Err(e), Err(s)) => e@ == s,
            _ => false,
        }
    }

    /// The stand-in answers with the home directory it was told.
    open spec fn home_answer(&self, conn: ConnectionConfig, answer: Result<Option<String>, String>) -> bool {
        match (answer, self.home()) {
            (Ok(Some(a)), Some(h)) => a@ == h@,
            (Ok(None), None) => true,
            _ => false,
        }
    }

    /// The newest error told for `cwd`, else the newest entries told for
    /// it, else no entries; the filters are not applied.
    fn list_remote_dir(&self, conn: &ConnectionConfig, cwd: &str, only_dirs: bool, show_hidden: bool) -> (r: Result<Vec<RemoteEntry>, String>)
        ensures
            match (r, mock_listing(*self, cwd@)) {
                (Ok(v), Ok(s)) => entries_view(v@) == s,
                (Err(e), Err(s)) => e@ == s,
                _ => false,
            },
    {
        self.listing(cwd)
    }

    /// The home directory the stand-in was told, never an error.
    fn remote_home_dir(&self, conn: &ConnectionConfig) -> (r: Result<Option<String>, String>)
        ensures
            match (r, self.home()) {
                (Ok(Some(a)), Some(h)) => a@ == h@,
                (Ok(None), None) => true,
                _ => false,
            },
    {
        match &self.home {
            Some(h) => Ok(Some(h.clone())),
            None => Ok(None),
        }
    }

    /// Whether the stand-in was told that directories have subdirectories,
    /// never an error.
    fn remote_has_subdirectories(&self, conn: &ConnectionConfig, path: &str) -> (r: Result<bool, String>)
        ensures
            r == Ok::<bool, String>(self.has_subdirs()),
    {
        Ok(self.has_subdirs)
    }

    /// The size, or the error, the stand-in was told last.
    fn remote_size(&self, conn: &ConnectionConfig, path: &str, is_dir: bool) -> (r: Result<u64, String>)
        ensures
            match (r, self.size_answer()) {
                (Ok(n), Ok(m)) => n == m,
                (Err(e), Err(f)) => e@ == f@,
                _ => false,
            },
    {
        match &self.size_error {
            Some(e) => Err(e.clone()),
            None => Ok(self.size),
        }
    }
}

impl MockSshBackend {
    /// What the stand-in answers for a listing of `cwd`.
    pub fn listing(&self, cwd: &str) -> (r: Result<Vec<RemoteEntry>, String>)
        ensures
            match (r, mock_listing(*self, cwd@)) {
                (Ok(v), Ok(s)) => entries_view(v@) == s,
                (Err(e), Err(s)) => e@ == s,
                _ => false,
            },
    {
        match newest_index(&self.list_errors, cwd) {
            Some(i) => Err(self.list_errors[i].1.clone()),
            None => match newest_index(&self.list, cwd) {
                Some(i) => Ok(copy_entries(&self.list[i].1)),
                None => {
                    let empty: Vec<RemoteEntry> = Vec::new();
                    assert(entries_view(empty@) =~= Seq::<(Seq<char>, Seq<char>, bool)>::empty());
                    Ok(empty)
                },
            },
        }
    }
}

/// The home directory a picker falls back to: the answer, trimmed, where
/// there is one that is not blank.
pub open spec fn fallback_home(answer: Result<Option<String>, String>) -> Option<Seq<char>> {
    match answer {
        Ok(Some(h)) => if is_blank(h@) {
            None
        } else {
            Some(trimmed(h@))
        },
        _ => None,
    }
}

/// The home directory a picker falls back to.
pub fn home_fallback(answer: Result<Option<String>, String>) -> (r: Option<String>)
    ensures
        match fallback_home(answer) {
            Some(h) => r is Some && r.unwrap()@ == h,
            None => r is None,
        },
{
    match answer {
        Ok(Some(h)) => {
            if crate::text::blank(h.as_str()) {
                None
            } else {
                Some(trim_text(h.as_str()))
            }
        },
        _ => None,
    }
}

/// What is left to do once a remote picker has opened.
#[derive(Debug, Clone, Copy, PartialEq, Eq, Structural)]
pub enum PickerOpening {
    /// The picker shows a listing.
    Loaded,
    /// The picker shows the root, loading; its listing is to be fetched in
    /// the background.
    FetchRoot,
    /// No connection is selected and connected; the picker stays loading.
    NotConnected,
}

/// `r` is the picker that the answers of the remote side give: the first
/// listing where it succeeded, shown at `cwd`; else the listing of the home
/// directory where there is one and it succeeded, shown at the home
/// directory; else the root, loading, to be fetched in the background.
pub open spec fn picker_after(
    cwd: Seq<char>,
    only_dirs: bool,
    first: Result<Vec<RemoteEntry>, String>,
    home: Option<String>,
    second: Option<Result<Vec<RemoteEntry>, String>>,
    r: (RemotePickerState, PickerOpening),
) -> bool {
    &&& r.0.only_dirs == only_dirs
    &&& !r.0.show_hidden
    &&& r.0.selected == 0
    &&& match first {
        Ok(entries) => {
            &&& r.1 == PickerOpening::Loaded
            &&& r.0.cwd@ == cwd
            &&& r.0.entries == entries
            &&& !r.0.loading
            &&& r.0.error is None
        },
        Err(_) => match (home, second) {
            (Some(h), Some(Ok(entries))) => {
                &&& r.1 == PickerOpening::Loaded
                &&& r.0.cwd@ == h@
                &&& r.0.entries == entries
                &&& !r.0.loading
                &&& r.0.error is None
            },
            _ => r.1 == PickerOpening::FetchRoot && is_loading_at(r.0, seq!['/']),
        },
    }
}

/// The picker that the answers of the remote side give: `first` is the
/// listing of `cwd`, `home` the home directory to fall back to, `second`
/// the listing of that home directory.
pub fn picker_after_listings(
    cwd: String,
    only_dirs: bool,
    first: Result<Vec<RemoteEntry>, String>,
    home: Option<String>,
    second: Option<Result<Vec<RemoteEntry>, String>>,
) -> (r: (RemotePickerState, PickerOpening))
    ensures
        picker_after(cwd@, only_dirs, first, home, second, r),
{
    let mut picker = RemotePickerState::open_at(cwd, only_dirs);
    if let Ok(entries) = first {
        picker.apply_listing(entries);
        return (picker, PickerOpening::Loaded);
    }
    if let Some(h) = home {
        if let Some(Ok(entries)) = second {
            picker.apply_listing(entries);
            picker.cwd = h;
            return (picker, PickerOpening::Loaded);
        }
    }
    picker.cwd = from_chars(&['/']);
    assert(picker.cwd@ =~= seq!['/']);
    (picker, PickerOpening::FetchRoot)
}

/// Opens a remote picker at `cwd` for the selected connection `conn`: it
/// lists `cwd` (hidden entries left out); where that fails, it asks for the
/// home directory and lists it; it shows the first listing that succeeded,
/// else the root, whose listing is left to fetch. The backend's answers
/// are whatever the remote side gives, so the result is stated over them.
pub fn open_remote_picker_at<B: SshBackend>(backend: &B, conn: Option<&ConnectionConfig>, cwd: String, only_dirs: bool) -> (r: (RemotePickerState, PickerOpening))
    ensures
        r.0.only_dirs == only_dirs,
        !r.0.show_hidden,
        r.0.selected == 0,
        conn is None ==> r.1 == PickerOpening::NotConnected && is_loading_at(r.0, cwd@),
        conn matches Some(c) ==> exists|
            first: Result<Vec<RemoteEntry>, String>,
            answer: Result<Option<String>, String>,
            home: Option<String>,
            second: Option<Result<Vec<RemoteEntry>, String>>,
        |
            #![trigger picker_after(cwd@, only_dirs, first, home, second, r), fallback_home(answer)]
            {
                &&& backend.listing_answer(*c, cwd@, only_dirs, false, first)
                &&& picker_after(cwd@, only_dirs, first, home, second, r)
                &&& first is Ok ==> home is None && second is None
                &&& first is Err ==> backend.home_answer(*c, answer) && opt_view(home) == fallback_home(
                    answer,
                )
                &&& home is None ==> second is None
                &&& home matches Some(h) ==> (second matches Some(s) && backend.listing_answer(
                    *c,
                    h@,
                    only_dirs,
                    false,
                    s,
                ))
            },
{
    let conn = match conn {
        Some(c) => c,
        None => {
            return (RemotePickerState::open_at(cwd, only_dirs), PickerOpening::NotConnected);
        },
    };
    let first = backend.list_remote_dir(conn, cwd.as_str(), only_dirs, false);
    let ghost g_first = first;
    let ghost g_cwd = cwd@;
    if first.is_ok() {
        let ghost g_answer = Ok::<Option<String>, String>(None);
        let r = picker_after_listings(cwd, only_dirs, first, None, None);
        assert(picker_after(g_cwd, only_dirs, g_first, None, None, r) && opt_view(None) == fallback_home(
            g_answer,
        ));
        return r;
    }
    let answer = backend.remote_home_dir(conn);
    let ghost g_answer = answer;
    let home = home_fallback(answer);
    let ghost g_home = home;
    let second = match &home {
        Some(h) => Some(backend.list_remote_dir(conn, h.as_str(), only_dirs, false)),
        None => None,
    };
    let ghost g_second = second;
    let r = picker_after_listings(cwd, only_dirs, first, home, second);
    assert(opt_view(g_home) == fallback_home(g_answer));
    assert(picker_after(g_cwd, only_dirs, g_first, g_home, g_second, r) && opt_view(g_home)
        == fallback_home(g_answer));
    r
}

} // verus!
