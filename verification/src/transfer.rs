//! A file transfer from its first choice to its end: the steps, what the
//! confirmation shows, and when progress is worth a log line.
use vstd::prelude::*;

use crate::model::{Notice, TransferDirection, TransferStep};
use crate::text::{bytes_text, format_bytes, from_chars, to_chars};
use vstd::slice::slice_subrange;

verus! {

/// Progress is logged each time this many more bytes have moved.
pub const TRANSFER_LOG_THRESHOLD_BYTES: u64 = 1048576;

/// A transfer being set up or running. Local paths are held as text.
#[derive(Debug, Clone)]
pub struct TransferState {
    pub direction: TransferDirection,
    pub step: TransferStep,
    pub source_path: Option<String>,
    pub source_remote: Option<String>,
    pub source_is_dir: bool,
    pub target_dir: Option<String>,
    pub target_local_dir: Option<String>,
    pub size_bytes: Option<u64>,
    pub progress_bytes: u64,
}

/// Everything stays but the fields a step names.
pub open spec fn same_paths(a: TransferState, b: TransferState) -> bool {
    &&& a.direction == b.direction
    &&& a.source_path == b.source_path
    &&& a.source_remote == b.source_remote
    &&& a.source_is_dir == b.source_is_dir
    &&& a.target_dir == b.target_dir
    &&& a.target_local_dir == b.target_local_dir
}

impl TransferState {
    /// A transfer in `direction` that starts with the choice of its source.
    pub fn start(direction: TransferDirection) -> (r: Self)
        ensures
            r.direction == direction,
            r.step == TransferStep::PickSource,
            r.source_path is None,
            r.source_remote is None,
            !r.source_is_dir,
            r.target_dir is None,
            r.target_local_dir is None,
            r.size_bytes is None,
            r.progress_bytes == 0,
    {
        TransferState {
            direction,
            step: TransferStep::PickSource,
            source_path: None,
            source_remote: None,
            source_is_dir: false,
            target_dir: None,
            target_local_dir: None,
            size_bytes: None,
            progress_bytes: 0,
        }
    }

    /// Takes a local source; the target comes next and the size is
    /// computed again.
    pub fn select_source_path(&mut self, path: String, is_dir: bool)
        ensures
            final(self).source_path == Some(path),
            final(self).source_is_dir == is_dir,
            final(self).step == TransferStep::PickTarget,
            final(self).size_bytes is None,
            final(self).direction == old(self).direction,
            final(self).source_remote == old(self).source_remote,
            final(self).target_dir == old(self).target_dir,
            final(self).target_local_dir == old(self).target_local_dir,
            final(self).progress_bytes == old(self).progress_bytes,
    {
        self.source_path = Some(path);
        self.source_is_dir = is_dir;
        self.step = TransferStep::PickTarget;
        self.size_bytes = None;
    }

    /// Takes a remote source; the target comes next and the size is
    /// computed again.
    pub fn select_source_remote(&mut self, path: String, is_dir: bool)
        ensures
            final(self).source_remote == Some(path),
            final(self).source_is_dir == is_dir,
            final(self).step == TransferStep::PickTarget,
            final(self).size_bytes is None,
            final(self).direction == old(self).direction,
            final(self).source_path == old(self).source_path,
            final(self).target_dir == old(self).target_dir,
            final(self).target_local_dir == old(self).target_local_dir,
            final(self).progress_bytes == old(self).progress_bytes,
    {
        self.source_remote = Some(path);
        self.source_is_dir = is_dir;
        self.step = TransferStep::PickTarget;
        self.size_bytes = None;
    }

    /// Takes the remote target directory of an upload and moves to the
    /// confirmation; true where the size is still to be computed.
    pub fn select_target_dir(&mut self, path: String) -> (needs_size: bool)
        ensures
            final(self).target_dir == Some(path),
            final(self).step == TransferStep::Confirm,
            needs_size == old(self).size_bytes is None,
            final(self).size_bytes == old(self).size_bytes,
            final(self).direction == old(self).direction,
            final(self).source_path == old(self).source_path,
            final(self).source_remote == old(self).source_remote,
            final(self).source_is_dir == old(self).source_is_dir,
            final(self).target_local_dir == old(self).target_local_dir,
            final(self).progress_bytes == old(self).progress_bytes,
    {
        self.target_dir = Some(path);
        self.step = TransferStep::Confirm;
        self.size_bytes.is_none()
    }

    /// Takes the local target directory of a download and moves to the
    /// confirmation; true where the size is still to be computed.
    pub fn select_target_local_dir(&mut self, path: String) -> (needs_size: bool)
        ensures
            final(self).target_local_dir == Some(path),
            final(self).step == TransferStep::Confirm,
            needs_size == old(self).size_bytes is None,
            final(self).size_bytes == old(self).size_bytes,
            final(self).direction == old(self).direction,
            final(self).source_path == old(self).source_path,
            final(self).source_remote == old(self).source_remote,
            final(self).source_is_dir == old(self).source_is_dir,
            final(self).target_dir == old(self).target_dir,
            final(self).progress_bytes == old(self).progress_bytes,
    {
        self.target_local_dir = Some(path);
        self.step = TransferStep::Confirm;
        self.size_bytes.is_none()
    }

    /// Moves back from the confirmation to the choice of target, and says
    /// where a remote target picker starts: the chosen directory, or the
    /// root.
    pub fn back_to_target(&mut self) -> (start: String)
        ensures
            final(self).step == TransferStep::PickTarget,
            same_paths(*final(self), *old(self)),
            final(self).size_bytes == old(self).size_bytes,
            final(self).progress_bytes == old(self).progress_bytes,
            start@ == match old(self).target_dir {
                Some(d) => d@,
                None => seq!['/'],
            },
    {
        self.step = TransferStep::PickTarget;
        match &self.target_dir {
            Some(d) => d.clone(),
            None => from_chars(&['/']),
        }
    }

    /// Moves back from the choice of target to the choice of source.
    pub fn back_to_source(&mut self)
        ensures
            final(self).step == TransferStep::PickSource,
            same_paths(*final(self), *old(self)),
            final(self).size_bytes == old(self).size_bytes,
            final(self).progress_bytes == old(self).progress_bytes,
    {
        self.step = TransferStep::PickSource;
    }

    /// The transfer starts to run, from no bytes.
    pub fn begin(&mut self)
        ensures
            final(self).step == TransferStep::Transferring,
            final(self).progress_bytes == 0,
            same_paths(*final(self), *old(self)),
            final(self).size_bytes == old(self).size_bytes,
    {
        self.step = TransferStep::Transferring;
        self.progress_bytes = 0;
    }

    /// Takes the size of the source once it is known.
    pub fn set_size(&mut self, size: u64)
        ensures
            final(self).size_bytes == Some(size),
            final(self).step == old(self).step,
            same_paths(*final(self), *old(self)),
            final(self).progress_bytes == old(self).progress_bytes,
    {
        self.size_bytes = Some(size);
    }

    /// Adds `amount` moved bytes (stopping at the largest `u64`) and, where
    /// at least the threshold has moved since the progress `last_logged`,
    /// hands back the progress to log and to remember.
    pub fn record_bytes(&mut self, amount: u64, last_logged: u64) -> (logged: Option<u64>)
        ensures
            final(self).progress_bytes == if old(self).progress_bytes + amount <= u64::MAX {
                (old(self).progress_bytes + amount) as u64
            } else {
                u64::MAX
            },
            logged == if final(self).progress_bytes >= last_logged + TRANSFER_LOG_THRESHOLD_BYTES {
                Some(final(self).progress_bytes)
            } else {
                None::<u64>
            },
            final(self).step == old(self).step,
            final(self).size_bytes == old(self).size_bytes,
            same_paths(*final(self), *old(self)),
    {
        self.progress_bytes = if self.progress_bytes <= u64::MAX - amount {
            self.progress_bytes + amount
        } else {
            u64::MAX
        };
        let since = if self.progress_bytes >= last_logged {
            self.progress_bytes - last_logged
        } else {
            0
        };
        if since >= TRANSFER_LOG_THRESHOLD_BYTES {
            Some(self.progress_bytes)
        } else {
            None
        }
    }
}

/// The end of the path that names an item, read as a POSIX path: trailing
/// slashes and `.` components are passed over, and a path that ends in
/// `..`, in the root, or is empty names none.
pub open spec fn file_name_of(p: Seq<char>) -> Option<Seq<char>>
    decreases p.len(),
{
    if p.len() == 0 {
        None
    } else if p.last() == '/' {
        file_name_of(p.drop_last())
    } else {
        let start = segment_start(p);
        let seg = p.subrange(start, p.len() as int);
        if seg == seq!['.'] {
            if start == 0 {
                None
            } else {
                proof {
                    lemma_segment_start(p);
                }
                file_name_of(p.take(start))
            }
        } else if seg == seq!['.', '.'] {
            None
        } else {
            Some(seg)
        }
    }
}

/// Where the last component of `p` starts: just after its last slash.
pub open spec fn segment_start(p: Seq<char>) -> int
    decreases p.len(),
{
    if p.len() == 0 {
        0
    } else if p.last() == '/' {
        p.len() as int
    } else {
        segment_start(p.drop_last())
    }
}

/// Where the last component of a path starts, and that it holds no slash.
pub proof fn lemma_segment_start(p: Seq<char>)
    ensures
        0 <= segment_start(p) <= p.len(),
        forall|k: int| segment_start(p) <= k < p.len() ==> p[k] != '/',
        segment_start(p) > 0 ==> p[segment_start(p) - 1] == '/',
        p.len() > 0 && p.last() != '/' ==> segment_start(p) < p.len(),
    decreases p.len(),
{
    if p.len() > 0 && p.last() != '/' {
        let q = p.drop_last();
        lemma_segment_start(q);
        assert forall|k: int| segment_start(p) <= k < p.len() implies p[k] != '/' by {
            if k < q.len() {
                assert(q[k] == p[k]);
            }
        }
        if segment_start(p) > 0 {
            assert(q[segment_start(p) - 1] == p[segment_start(p) - 1]);
        }
    }
}

/// The item name a path ends in, if it has one.
pub fn file_name(path: &str) -> (r: Option<String>)
    ensures
        match file_name_of(path@) {
            Some(n) => r is Some && r.unwrap()@ == n,
            None => r is None,
        },
{
    let chars = to_chars(path);
    let mut end: usize = chars.len();
    assert(chars@.take(end as int) =~= chars@);
    while end > 0
        invariant
            end <= chars@.len(),
            chars@ == path@,
            file_name_of(chars@.take(end as int)) == file_name_of(path@),
        decreases end,
    {
        let ghost p = chars@.take(end as int);
        if chars[end - 1] == '/' {
            assert(p.drop_last() =~= chars@.take(end - 1));
            end = end - 1;
        } else {
            let mut start: usize = end - 1;
            while start > 0 && chars[start - 1] != '/'
                invariant
                    start < end <= chars@.len(),
                    forall|k: int| start <= k < end ==> chars@[k] != '/',
                decreases start,
            {
                start = start - 1;
            }
            proof {
                lemma_segment_start(p);
                let s = segment_start(p);
                if s > start {
                    assert(p[s - 1] == '/');
                    assert(chars@[s - 1] != '/');
                }
                if s < start {
                    assert(chars@[start - 1] == '/');
                    assert(p[start - 1] != '/');
                }
                assert(s == start);
            }
            let len = end - start;
            let is_dot = len == 1 && chars[start] == '.';
            let is_dot_dot = len == 2 && chars[start] == '.' && chars[start + 1] == '.';
            let ghost seg = p.subrange(start as int, end as int);
            assert(seg =~= chars@.subrange(start as int, end as int));
            if is_dot {
                assert(seg =~= seq!['.']);
                if start == 0 {
                    return None;
                }
                assert(p.take(start as int) =~= chars@.take(start as int));
                end = start;
            } else if is_dot_dot {
                assert(seg =~= seq!['.', '.']);
                return None;
            } else {
                assert(seg != seq!['.']) by {
                    if seg == seq!['.'] {
                        assert(seg.len() == 1 && seg[0] == chars@[start as int]);
                    }
                }
                assert(seg != seq!['.', '.']) by {
                    if seg == seq!['.', '.'] {
                        assert(seg[0] == chars@[start as int] && seg[1] == chars@[start + 1]);
                    }
                }
                let name = slice_subrange(chars.as_slice(), start, end);
                assert(name@ =~= seg);
                return Some(from_chars(name));
            }
        }
    }
    assert(chars@.take(0) =~= Seq::<char>::empty());
    None
}

/// The text of an optional path, or `-`.
pub open spec fn shown_or_dash(p: Option<Seq<char>>) -> Seq<char> {
    match p {
        Some(s) => s,
        None => seq!['-'],
    }
}

/// What the confirmation names as the target: the target directory joined
/// with the name of the source (or `item`); `-` where there is no target.
/// An upload into the root joins without a second slash.
pub open spec fn spec_target_text(direction: TransferDirection, target_dir: Option<Seq<char>>, source: Option<Seq<char>>) -> Seq<char> {
    let dir = shown_or_dash(target_dir);
    let name = match source {
        Some(s) => match file_name_of(s) {
            Some(n) => n,
            None => seq!['i', 't', 'e', 'm'],
        },
        None => seq!['i', 't', 'e', 'm'],
    };
    if dir == seq!['-'] {
        dir
    } else if direction == TransferDirection::Upload && dir == seq!['/'] {
        seq!['/'] + name
    } else {
        dir + seq!['/'] + name
    }
}

/// The optional string as values.
pub open spec fn opt_text(p: Option<String>) -> Option<Seq<char>> {
    match p {
        Some(s) => Some(s@),
        None => None,
    }
}

/// The source the confirmation shows.
pub open spec fn spec_source_text(t: TransferState) -> Seq<char> {
    match t.direction {
        TransferDirection::Upload => shown_or_dash(opt_text(t.source_path)),
        TransferDirection::Download => shown_or_dash(opt_text(t.source_remote)),
    }
}

/// The size the confirmation shows: the size where known, a note while it
/// is being computed before the transfer starts, `-` otherwise.
pub open spec fn spec_size_text(t: TransferState) -> Seq<char> {
    match t.size_bytes {
        Some(n) => bytes_text(n as nat),
        None => if t.step == TransferStep::Confirm {
            "calculating size..."@
        } else {
            seq!['-']
        },
    }
}

fn text_or_dash(p: &Option<String>) -> (r: String)
    ensures
        r@ == shown_or_dash(opt_text(*p)),
{
    match p {
        Some(s) => s.clone(),
        None => from_chars(&['-']),
    }
}

/// What the transfer confirmation shows: source, target and size.
pub fn transfer_summary(t: &TransferState) -> (r: (String, String, String))
    ensures
        r.0@ == spec_source_text(*t),
        r.1@ == match t.direction {
            TransferDirection::Upload => spec_target_text(
                t.direction,
                opt_text(t.target_dir),
                opt_text(t.source_path),
            ),
            TransferDirection::Download => spec_target_text(
                t.direction,
                opt_text(t.target_local_dir),
                opt_text(t.source_remote),
            ),
        },
        r.2@ == spec_size_text(*t),
{
    let (source, target_dir, source_for_name) = match t.direction {
        TransferDirection::Upload => (&t.source_path, &t.target_dir, &t.source_path),
        TransferDirection::Download => (&t.source_remote, &t.target_local_dir, &t.source_remote),
    };
    let source_text = text_or_dash(source);
    let dir = text_or_dash(target_dir);
    let name = match source_for_name {
        Some(s) => match file_name(s.as_str()) {
            Some(n) => n,
            None => from_chars(&['i', 't', 'e', 'm']),
        },
        None => from_chars(&['i', 't', 'e', 'm']),
    };
    let dir_chars = to_chars(dir.as_str());
    let name_chars = to_chars(name.as_str());
    let target = if dir_chars.len() == 1 && dir_chars[0] == '-' {
        assert(dir@ =~= seq!['-']);
        dir
    } else if t.direction == TransferDirection::Upload && dir_chars.len() == 1 && dir_chars[0]
        == '/' {
        assert(dir@ =~= seq!['/']);
        let mut out: Vec<char> = Vec::new();
        out.push('/');
        let mut i: usize = 0;
        while i < name_chars.len()
            invariant
                i <= name_chars@.len(),
                out@ == seq!['/'] + name_chars@.take(i as int),
            decreases name_chars@.len() - i,
        {
            out.push(name_chars[i]);
            i = i + 1;
            assert(out@ =~= seq!['/'] + name_chars@.take(i as int));
        }
        assert(name_chars@.take(i as int) =~= name_chars@);
        from_chars(out.as_slice())
    } else {
        assert(dir@ != seq!['-']);
        assert(!(t.direction == TransferDirection::Upload && dir@ == seq!['/']));
        let mut out = dir_chars.clone();
        out.push('/');
        let mut i: usize = 0;
        while i < name_chars.len()
            invariant
                i <= name_chars@.len(),
                out@ == dir_chars@ + seq!['/'] + name_chars@.take(i as int),
            decreases name_chars@.len() - i,
        {
            out.push(name_chars[i]);
            i = i + 1;
            assert(out@ =~= dir_chars@ + seq!['/'] + name_chars@.take(i as int));
        }
        assert(name_chars@.take(i as int) =~= name_chars@);
        from_chars(out.as_slice())
    };
    let size = match t.size_bytes {
        Some(n) => format_bytes(n),
        None => {
            if t.step == TransferStep::Confirm {
                let s = "calculating size...";
                String::from_str(s)
            } else {
                from_chars(&['-'])
            }
        },
    };
    (source_text, target, size)
}

/// The label of the progress bar: moved and total bytes, the moved ones
/// at most the total; `0 B` where the total is not known.
pub open spec fn spec_progress_label(progress: u64, size: Option<u64>) -> Seq<char> {
    let total: u64 = match size {
        Some(n) => n,
        None => 0,
    };
    let current: u64 = if progress < total { progress } else { total };
    if total == 0 {
        "0 B"@
    } else {
        bytes_text(current as nat) + " / "@ + bytes_text(total as nat)
    }
}

/// The label of the progress bar of a running transfer.
pub fn progress_label(progress: u64, size: Option<u64>) -> (r: String)
    ensures
        r@ == spec_progress_label(progress, size),
{
    let total: u64 = match size {
        Some(n) => n,
        None => 0,
    };
    let current = if progress < total { progress } else { total };
    if total == 0 {
        return String::from_str("0 B");
    }
    let mut out = format_bytes(current);
    out.append(" / ");
    let rest = format_bytes(total);
    out.append(rest.as_str());
    out
}

/// The notice that ends a transfer.
pub fn transfer_done_notice(result: Result<(), String>) -> (r: Notice)
    ensures
        result is Ok ==> r.title@ == "Transfer complete"@ && r.message@
            == "Transfer finished successfully"@,
        result matches Err(e) ==> r.title@ == "Transfer failed"@ && r.message == e,
{
    match result {
        Ok(()) => Notice {
            title: String::from_str("Transfer complete"),
            message: String::from_str("Transfer finished successfully"),
        },
        Err(e) => Notice { title: String::from_str("Transfer failed"), message: e },
    }
}

} // verus!
