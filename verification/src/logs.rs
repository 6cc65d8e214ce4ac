//! The activity log: the lines kept in memory, the lines a log file keeps
//! when it is pruned, and how a log line reads.
use vstd::prelude::*;

use crate::text::{decimal, from_chars, push_decimal, to_chars};

verus! {

/// Lines of the log kept in memory.
pub const LOG_MAX_IN_MEMORY: usize = 100;

/// Lines a pruned log file keeps at most.
pub const LOG_MAX_ENTRIES: usize = 10000;

/// Days a log line is kept.
pub const LOG_RETENTION_DAYS: i64 = 7;

/// The last `n` items of `s`, or all of them where there are fewer.
pub open spec fn keep_last<T>(s: Seq<T>, n: nat) -> Seq<T> {
    if s.len() > n {
        s.skip(s.len() - n)
    } else {
        s
    }
}

/// The log kept in memory: its newest lines, and the newest line itself.
pub struct LogBuffer {
    pub lines: Vec<String>,
    pub last: String,
}

impl LogBuffer {
    /// An empty log; the last line says there is none yet.
    pub fn new() -> (r: Self)
        ensures
            r.lines@.len() == 0,
            r.last@ == "No logs yet"@,
    {
        LogBuffer { lines: Vec::new(), last: String::from_str("No logs yet") }
    }

    /// Adds a line; only the newest lines stay.
    pub fn push(&mut self, line: String)
        ensures
            final(self).lines@ == keep_last(old(self).lines@.push(line), LOG_MAX_IN_MEMORY as nat),
            final(self).last@ == line@,
    {
        self.last = line.clone();
        let ghost all = self.lines@.push(line);
        self.lines.push(line);
        let ghost mut dropped: int = 0;
        while self.lines.len() > LOG_MAX_IN_MEMORY
            invariant
                0 <= dropped <= all.len(),
                self.lines@ == all.skip(dropped),
                self.last@ == line@,
                dropped > 0 ==> all.len() - dropped >= LOG_MAX_IN_MEMORY,
            decreases self.lines@.len(),
        {
            self.lines.remove(0);
            proof {
                assert(self.lines@ =~= all.skip(dropped + 1));
                dropped = dropped + 1;
            }
        }
        proof {
            if all.len() > LOG_MAX_IN_MEMORY {
                assert(dropped == all.len() - LOG_MAX_IN_MEMORY);
            } else {
                assert(dropped == 0);
                assert(all.skip(0) =~= all);
            }
        }
    }

    /// The newest `count` lines, newest first.
    pub fn recent(&self, count: usize) -> (r: Vec<String>)
        ensures
            r@ == recent_lines(self.lines@, count as nat),
    {
        let len = self.lines.len();
        let n = if count < len { count } else { len };
        let mut out: Vec<String> = Vec::new();
        let mut k: usize = 0;
        while k < n
            invariant
                k <= n,
                n <= len,
                len == self.lines@.len(),
                n == if count < len { count } else { len },
                out@ =~= recent_lines(self.lines@, count as nat).take(k as int),
            decreases n - k,
        {
            out.push(self.lines[len - 1 - k].clone());
            k = k + 1;
            assert(out@ =~= recent_lines(self.lines@, count as nat).take(k as int));
        }
        out
    }
}

/// The newest `count` lines of `lines`, newest first.
pub open spec fn recent_lines(lines: Seq<String>, count: nat) -> Seq<String> {
    let n = if count < lines.len() { count } else { lines.len() };
    Seq::new(n, |i: int| lines[lines.len() - 1 - i])
}

/// A log line: the time, a bar, the message.
pub open spec fn spec_log_line(timestamp: Seq<char>, message: Seq<char>) -> Seq<char> {
    timestamp + " | "@ + message
}

/// A log line for `message` logged at `timestamp`.
pub fn log_line(timestamp: &str, message: &str) -> (r: String)
    ensures
        r@ == spec_log_line(timestamp@, message@),
{
    let mut out = String::from_str(timestamp);
    out.append(" | ");
    out.append(message);
    out
}

/// The index of the first line break in `s` at or after `i`.
pub open spec fn newline_from(s: Seq<char>, i: int) -> Option<int>
    decreases s.len() - i,
{
    if i < 0 || i >= s.len() {
        None
    } else if s[i] == '\n' {
        Some(i)
    } else {
        newline_from(s, i + 1)
    }
}

/// A line without the carriage return before its line feed.
pub open spec fn without_cr(line: Seq<char>) -> Seq<char> {
    if line.len() > 0 && line.last() == '\r' {
        line.drop_last()
    } else {
        line
    }
}

/// The lines of a text: split at `\n` (a `\r` before it goes too), with
/// no line after a final line feed.
pub open spec fn text_lines(s: Seq<char>) -> Seq<Seq<char>>
    decreases s.len(),
{
    if s.len() == 0 {
        seq![]
    } else {
        match newline_from(s, 0) {
            None => seq![s],
            Some(i) => {
                proof {
                    lemma_newline_from(s, 0);
                }
                seq![without_cr(s.take(i))] + text_lines(s.skip(i + 1))
            },
        }
    }
}

/// Where the first line break at or after `i` lies, and that there is
/// none before it.
pub proof fn lemma_newline_from(s: Seq<char>, i: int)
    requires
        0 <= i,
    ensures
        newline_from(s, i) matches Some(j) ==> i <= j < s.len() && s[j] == '\n' && forall|k: int|
            i <= k < j ==> s[k] != '\n',
        newline_from(s, i) is None ==> forall|k: int| i <= k < s.len() ==> s[k] != '\n',
    decreases s.len() - i,
{
    if i < s.len() && s[i] != '\n' {
        lemma_newline_from(s, i + 1);
    }
}

/// The index of the first ` | ` in `s` at or after `i`.
pub open spec fn separator_from(s: Seq<char>, i: int) -> Option<int>
    decreases s.len() - i,
{
    if i < 0 || i + 3 > s.len() {
        None
    } else if s[i] == ' ' && s[i + 1] == '|' && s[i + 2] == ' ' {
        Some(i)
    } else {
        separator_from(s, i + 1)
    }
}

/// The time a log line starts with: what comes before its first ` | `.
pub open spec fn line_stamp(line: Seq<char>) -> Option<Seq<char>> {
    match separator_from(line, 0) {
        Some(i) => Some(line.take(i)),
        None => None,
    }
}

/// The decimal text of a year, with a minus sign before the years before 0.
pub open spec fn year_text(year: i32) -> Seq<char> {
    if year < 0 {
        seq!['-'] + decimal((-year) as nat)
    } else {
        decimal(year as nat)
    }
}

/// The time a log file line was written, read as `%Y-%m-%d %H:%M:%S`, as
/// seconds and nanoseconds of the same calendar read as UTC.
pub uninterp spec fn log_time_parsed(text: Seq<char>) -> Option<(i64, u32)>;

/// `chrono::NaiveDateTime::parse_from_str` with the format of log times,
/// taken to the seconds and nanoseconds of the parsed time read as UTC.
/// The contract claims only that the result is a function of the text.
#[verifier::external_body]
fn parse_log_time(text: &str) -> (r: Option<(i64, u32)>)
    ensures
        r == log_time_parsed(text@),
{
    match chrono::NaiveDateTime::parse_from_str(text, "%Y-%m-%d %H:%M:%S") {
        Ok(t) => Some((t.and_utc().timestamp(), t.and_utc().timestamp_subsec_nanos())),
        Err(_) => None,
    }
}

/// Whether time `t` is not before time `cutoff`, both as seconds and
/// nanoseconds.
pub open spec fn not_before(t: (i64, u32), cutoff: (i64, u32)) -> bool {
    t.0 > cutoff.0 || (t.0 == cutoff.0 && t.1 >= cutoff.1)
}

/// Whether a log file line stays: its time, with the year put in front,
/// reads as a time no earlier than the cutoff.
pub open spec fn line_kept(line: Seq<char>, year: i32, cutoff: (i64, u32)) -> bool {
    match line_stamp(line) {
        Some(stamp) => match log_time_parsed(year_text(year) + seq!['-'] + stamp) {
            Some(t) => not_before(t, cutoff),
            None => false,
        },
        None => false,
    }
}

/// The lines a pruned log file keeps: those no older than the cutoff, at
/// most the newest `LOG_MAX_ENTRIES` of them.
pub open spec fn pruned_lines(content: Seq<char>, year: i32, cutoff: (i64, u32)) -> Seq<Seq<char>> {
    keep_last(
        text_lines(content).filter(|l: Seq<char>| line_kept(l, year, cutoff)),
        LOG_MAX_ENTRIES as nat,
    )
}

/// The text of a year followed by a dash.
fn year_prefix(year: i32) -> (r: Vec<char>)
    ensures
        r@ == year_text(year) + seq!['-'],
{
    let mut out: Vec<char> = Vec::new();
    if year < 0 {
        out.push('-');
        let magnitude: u64 = if year == i32::MIN {
            2147483648
        } else {
            (-year) as u64
        };
        push_decimal(magnitude, &mut out);
    } else {
        push_decimal(year as u64, &mut out);
    }
    out.push('-');
    out
}

/// Whether a log file line stays.
fn keeps_line(line: &Vec<char>, prefix: &Vec<char>, year: i32, cutoff: (i64, u32)) -> (r: bool)
    requires
        prefix@ == year_text(year) + seq!['-'],
    ensures
        r == line_kept(line@, year, cutoff),
{
    let mut i: usize = 0;
    while line.len() - i >= 3 && !(line[i] == ' ' && line[i + 1] == '|' && line[i + 2] == ' ')
        invariant
            i <= line@.len(),
            separator_from(line@, i as int) == separator_from(line@, 0),
        decreases line@.len() - i,
    {
        i = i + 1;
    }
    if line.len() - i < 3 {
        return false;
    }
    let mut text = prefix.clone();
    let mut k: usize = 0;
    while k < i
        invariant
            k <= i,
            i <= line@.len(),
            text@ == prefix@ + line@.take(k as int),
        decreases i - k,
    {
        text.push(line[k]);
        k = k + 1;
        assert(text@ =~= prefix@ + line@.take(k as int));
    }
    let stamp = from_chars(text.as_slice());
    match parse_log_time(stamp.as_str()) {
        Some(t) => t.0 > cutoff.0 || (t.0 == cutoff.0 && t.1 >= cutoff.1),
        None => false,
    }
}

/// The lines a log file keeps when it is pruned in `year`, the cutoff given
/// as seconds and nanoseconds read as UTC; the caller writes them back, or
/// removes the file where none stay.
pub fn prune_log_lines(content: &str, year: i32, cutoff: (i64, u32)) -> (r: Vec<String>)
    ensures
        r@.map_values(|l: String| l@) == pruned_lines(content@, year, cutoff),
{
    let chars = to_chars(content);
    let prefix = year_prefix(year);
    let ghost keep = |l: Seq<char>| line_kept(l, year, cutoff);
    let mut kept: Vec<String> = Vec::new();
    let mut start: usize = 0;
    assert(chars@.skip(0) =~= chars@);
    while start < chars.len()
        invariant
            start <= chars@.len(),
            chars@ == content@,
            prefix@ == year_text(year) + seq!['-'],
            keep == (|l: Seq<char>| line_kept(l, year, cutoff)),
            kept@.map_values(|l: String| l@) + text_lines(chars@.skip(start as int)).filter(keep)
                == text_lines(content@).filter(keep),
        decreases chars@.len() - start,
    {
        let ghost rest = chars@.skip(start as int);
        let mut end: usize = start;
        while end < chars.len() && chars[end] != '\n'
            invariant
                start <= end <= chars@.len(),
                forall|k: int| start <= k < end ==> chars@[k] != '\n',
            decreases chars@.len() - end,
        {
            end = end + 1;
        }
        let line_end = if end < chars.len() && end > start && chars[end - 1] == '\r' {
            end - 1
        } else {
            end
        };
        let mut line: Vec<char> = Vec::new();
        let mut k: usize = start;
        while k < line_end
            invariant
                start <= k <= line_end,
                line_end <= chars@.len(),
                line@ == chars@.subrange(start as int, k as int),
            decreases line_end - k,
        {
            line.push(chars[k]);
            k = k + 1;
            assert(line@ =~= chars@.subrange(start as int, k as int));
        }
        proof {
            lemma_newline_from(rest, 0);
            let j = end - start;
            if end < chars.len() {
                assert(rest[j] == '\n');
                if newline_from(rest, 0) != Some(j) {
                    match newline_from(rest, 0) {
                        Some(q) => {
                            if q < j {
                                assert(rest[q] == chars@[start + q]);
                            } else {
                                assert(rest[j] == '\n');
                            }
                        },
                        None => {
                            assert(rest[j] == '\n');
                        },
                    }
                }
                assert(newline_from(rest, 0) == Some(j));
                assert(rest.take(j) =~= chars@.subrange(start as int, end as int));
                assert(line@ =~= without_cr(rest.take(j)));
                assert(rest.skip(j + 1) =~= chars@.skip(end + 1));
                assert(text_lines(rest) == seq![line@] + text_lines(chars@.skip(end + 1)));
            } else {
                if newline_from(rest, 0) is Some {
                    let q = newline_from(rest, 0)->0;
                    assert(rest[q] == chars@[start + q]);
                }
                assert(newline_from(rest, 0) is None);
                assert(line@ =~= rest);
                assert(text_lines(rest) == seq![line@]);
                assert(chars@.skip(chars@.len() as int) =~= Seq::<char>::empty());
                assert(text_lines(chars@.skip(chars@.len() as int)) =~= Seq::<Seq<char>>::empty());
                assert(seq![line@] =~= seq![line@] + text_lines(chars@.skip(chars@.len() as int)));
            }
        }
        let stays = keeps_line(&line, &prefix, year, cutoff);
        let ghost before = kept@;
        if stays {
            kept.push(from_chars(line.as_slice()));
            assert(kept@.map_values(|l: String| l@) =~= before.map_values(|l: String| l@).push(line@));
        }
        let next = if end < chars.len() { end + 1 } else { end };
        proof {
            text_lines(chars@.skip(next as int)).lemma_filter_prepend(line@, keep);
            assert(keep(line@) == stays);
        }
        start = next;
        assert(kept@.map_values(|l: String| l@) + text_lines(chars@.skip(start as int)).filter(keep)
            =~= text_lines(content@).filter(keep));
    }
    assert(chars@.skip(start as int) =~= Seq::<char>::empty());
    assert(text_lines(Seq::<char>::empty()) =~= Seq::<Seq<char>>::empty());
    assert(Seq::<Seq<char>>::empty().filter(keep) =~= Seq::<Seq<char>>::empty());
    assert(kept@.map_values(|l: String| l@) =~= text_lines(content@).filter(keep));
    if kept.len() > LOG_MAX_ENTRIES {
        let drop = kept.len() - LOG_MAX_ENTRIES;
        let mut out: Vec<String> = Vec::new();
        let mut k: usize = drop;
        while k < kept.len()
            invariant
                drop <= k <= kept@.len(),
                out@ == kept@.subrange(drop as int, k as int),
            decreases kept@.len() - k,
        {
            out.push(kept[k].clone());
            k = k + 1;
            assert(out@ =~= kept@.subrange(drop as int, k as int));
        }
        assert(out@ =~= kept@.skip(drop as int));
        assert(out@.map_values(|l: String| l@) =~= kept@.map_values(|l: String| l@).skip(
            drop as int,
        ));
        out
    } else {
        kept
    }
}

/// How many lines a message takes in a notice: its lines, at least one.
pub fn notice_line_count(message: &str) -> (r: usize)
    ensures
        r == if text_lines(message@).len() == 0 {
            1
        } else {
            text_lines(message@).len()
        },
{
    let chars = to_chars(message);
    let mut count: usize = 0;
    let mut start: usize = 0;
    assert(chars@.skip(0) =~= chars@);
    while start < chars.len()
        invariant
            start <= chars@.len(),
            chars@ == message@,
            count <= start,
            count + text_lines(chars@.skip(start as int)).len() == text_lines(message@).len(),
        decreases chars@.len() - start,
    {
        let ghost rest = chars@.skip(start as int);
        let mut end: usize = start;
        while end < chars.len() && chars[end] != '\n'
            invariant
                start <= end <= chars@.len(),
                forall|k: int| start <= k < end ==> chars@[k] != '\n',
            decreases chars@.len() - end,
        {
            end = end + 1;
        }
        proof {
            lemma_newline_from(rest, 0);
            let j = end - start;
            if end < chars.len() {
                assert(rest[j] == '\n');
                match newline_from(rest, 0) {
                    Some(q) => {
                        if q < j {
                            assert(rest[q] == chars@[start + q]);
                        }
                    },
                    None => {},
                }
                assert(newline_from(rest, 0) == Some(j));
                assert(rest.skip(j + 1) =~= chars@.skip(end + 1));
            } else {
                if newline_from(rest, 0) is Some {
                    let q = newline_from(rest, 0)->0;
                    assert(rest[q] == chars@[start + q]);
                }
                assert(newline_from(rest, 0) is None);
                assert(chars@.skip(chars@.len() as int) =~= Seq::<char>::empty());
            }
        }
        count = count + 1;
        start = if end < chars.len() { end + 1 } else { end };
    }
    assert(chars@.skip(start as int) =~= Seq::<char>::empty());
    if count == 0 {
        1
    } else {
        count
    }
}

/// The log in memory never holds more than its limit, and the newest line
/// is always the last one kept.
pub proof fn lemma_log_keeps_newest(lines: Seq<String>, line: String)
    ensures
        keep_last(lines.push(line), LOG_MAX_IN_MEMORY as nat).len() <= LOG_MAX_IN_MEMORY,
        keep_last(lines.push(line), LOG_MAX_IN_MEMORY as nat).last() == line,
{
}

/// A pruned log keeps only lines whose time reads as no earlier than the
/// cutoff, and at most `LOG_MAX_ENTRIES` of them.
pub proof fn lemma_pruned_lines_recent(content: Seq<char>, year: i32, cutoff: (i64, u32))
    ensures
        pruned_lines(content, year, cutoff).len() <= LOG_MAX_ENTRIES,
        forall|k: int|
            0 <= k < pruned_lines(content, year, cutoff).len() ==> line_kept(
                #[trigger] pruned_lines(content, year, cutoff)[k],
                year,
                cutoff,
            ),
{
    let f = |l: Seq<char>| line_kept(l, year, cutoff);
    let kept = text_lines(content).filter(f);
    assert forall|k: int| 0 <= k < kept.len() implies f(#[trigger] kept[k]) by {
        text_lines(content).lemma_filter_pred(f, k);
    }
    assert forall|k: int|
        0 <= k < pruned_lines(content, year, cutoff).len() implies line_kept(
            #[trigger] pruned_lines(content, year, cutoff)[k],
            year,
            cutoff,
        ) by {
        if kept.len() > LOG_MAX_ENTRIES {
            assert(pruned_lines(content, year, cutoff)[k] == kept[k + kept.len() - LOG_MAX_ENTRIES]);
        } else {
            assert(pruned_lines(content, year, cutoff)[k] == kept[k]);
        }
        assert(f(pruned_lines(content, year, cutoff)[k]));
    }
}

} // verus!
