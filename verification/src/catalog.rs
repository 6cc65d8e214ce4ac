//! The saved connections: their order, the selection, and the changes the
//! client makes to them.
use vstd::prelude::*;

use crate::model::{
    AuthConfig, AuthView, ConnectionConfig, ConnectionView, HistoryEntry, HistoryState,
    KeyCandidate, connection_key, copy_history, copy_opt_string, opt_view, same_identity,
    spec_connection_key, spec_same_identity,
};
use crate::order::{desc_before, desc_order, lemma_desc_before, lemma_stable_order, order_by_desc_key, sorted_by, stable_by, is_permutation};
use crate::text::{from_chars, same_text, to_chars};
use crate::vault::views;

verus! {

/// The time of the latest connection attempt in a history, 0 for none.
pub open spec fn last_used(history: Seq<HistoryEntry>) -> u64
    decreases history.len(),
{
    if history.len() == 0 {
        0
    } else {
        let rest = last_used(history.drop_last());
        if history.last().ts > rest {
            history.last().ts
        } else {
            rest
        }
    }
}

/// The time of the latest connection attempt of a connection, 0 for none.
pub fn latest_timestamp(history: &Vec<HistoryEntry>) -> (r: u64)
    ensures
        r == last_used(history@),
{
    let mut best: u64 = 0;
    let mut i: usize = 0;
    while i < history.len()
        invariant
            i <= history.len(),
            best == last_used(history@.take(i as int)),
        decreases history.len() - i,
    {
        assert(history@.take(i + 1).drop_last() =~= history@.take(i as int));
        if history[i].ts > best {
            best = history[i].ts;
        }
        i = i + 1;
    }
    assert(history@.take(history.len() as int) =~= history@);
    best
}

/// The first position in `list` with the same identity as `conn`.
pub open spec fn is_first_match(list: Seq<ConnectionView>, conn: ConnectionView, i: int) -> bool {
    &&& 0 <= i < list.len()
    &&& spec_same_identity(list[i], conn)
    &&& forall|j: int| 0 <= j < i ==> !spec_same_identity(#[trigger] list[j], conn)
}

/// No connection in `list` has the identity of `conn`.
pub open spec fn no_match(list: Seq<ConnectionView>, conn: ConnectionView) -> bool {
    forall|j: int| 0 <= j < list.len() ==> !spec_same_identity(#[trigger] list[j], conn)
}

/// The position of the first connection with the same identity as `conn`.
pub fn position_same_identity(list: &Vec<ConnectionConfig>, conn: &ConnectionConfig) -> (r: Option<usize>)
    ensures
        match r {
            Some(i) => is_first_match(views(list@), conn@, i as int),
            None => no_match(views(list@), conn@),
        },
{
    let mut i: usize = 0;
    while i < list.len()
        invariant
            i <= list.len(),
            forall|j: int| 0 <= j < i ==> !spec_same_identity(#[trigger] views(list@)[j], conn@),
        decreases list.len() - i,
    {
        if same_identity(&list[i], conn) {
            return Some(i);
        }
        i = i + 1;
    }
    None
}

/// The saved connections and which one is selected.
pub struct ConnectionList {
    pub connections: Vec<ConnectionConfig>,
    pub selected: usize,
}

/// `order` applied to `items`: the item at each position of the order.
pub open spec fn permuted<T>(items: Seq<T>, order: Seq<int>) -> Seq<T> {
    order.map_values(|p: int| items[p])
}

/// The last-used times of a list of connections.
pub open spec fn recency_keys(conns: Seq<ConnectionView>) -> Seq<u64> {
    conns.map_values(|c: ConnectionView| last_used(c.history))
}

/// The connections ordered by latest use, most recent first; ties keep
/// their order.
pub open spec fn by_recent(conns: Seq<ConnectionView>) -> Seq<ConnectionView> {
    permuted(conns, desc_order(recency_keys(conns), conns.len()))
}

/// The selection after a reordering: the connection with the given key if
/// there is one, otherwise the old selection kept within the list.
pub open spec fn selection_after_sort(conns: Seq<ConnectionView>, selected: nat, key: Option<Seq<char>>, chosen: nat) -> bool {
    match key {
        Some(k) if exists|i: int| 0 <= i < conns.len() && spec_connection_key(#[trigger] conns[i]) == k => {
            &&& chosen < conns.len()
            &&& spec_connection_key(conns[chosen as int]) == k
            &&& forall|j: int| 0 <= j < chosen ==> spec_connection_key(#[trigger] conns[j]) != k
        },
        _ => chosen == if selected >= conns.len() {
            if conns.len() == 0 {
                0
            } else {
                (conns.len() - 1) as nat
            }
        } else {
            selected
        },
    }
}

impl ConnectionList {
    /// The views of the saved connections.
    pub open spec fn spec_connections(&self) -> Seq<ConnectionView> {
        views(self.connections@)
    }

    /// Orders the connections by latest use, most recent first, ties kept in
    /// order; then selects the connection with `selected_key` if one has
    /// it, or keeps the selection within the list.
    pub fn sort_connections_by_recent(&mut self, selected_key: Option<String>)
        ensures
            final(self).spec_connections() == by_recent(old(self).spec_connections()),
            selection_after_sort(
                final(self).spec_connections(),
                old(self).selected as nat,
                opt_view(selected_key),
                final(self).selected as nat,
            ),
            forall|a: int, b: int|
                0 <= a < b < final(self).connections@.len() ==> last_used(
                    #[trigger] final(self).connections@[a].history@,
                ) >= last_used(#[trigger] final(self).connections@[b].history@),
    {
        let ghost old_views = self.spec_connections();
        let mut keys: Vec<u64> = Vec::new();
        let mut i: usize = 0;
        while i < self.connections.len()
            invariant
                i <= self.connections.len(),
                keys@.len() == i,
                old_views == views(self.connections@),
                forall|j: int| 0 <= j < i ==> #[trigger] keys@[j] == recency_keys(old_views)[j],
            decreases self.connections.len() - i,
        {
            keys.push(latest_timestamp(&self.connections[i].history));
            i = i + 1;
        }
        assert(keys@ =~= recency_keys(old_views));
        let order = order_by_desc_key(&keys);
        let mut sorted: Vec<ConnectionConfig> = Vec::new();
        let mut k: usize = 0;
        while k < order.len()
            invariant
                k <= order.len(),
                order@.len() == self.connections@.len(),
                forall|a: int| 0 <= a < order@.len() ==> #[trigger] order@[a] < self.connections@.len(),
                old_views == views(self.connections@),
                sorted@.len() == k,
                forall|a: int| 0 <= a < k ==> #[trigger] sorted@[a]@ == old_views[order@[a] as int],
            decreases order.len() - k,
        {
            sorted.push(self.connections[order[k]].duplicate());
            k = k + 1;
        }
        self.connections = sorted;
        proof {
            let ord = desc_order(recency_keys(old_views), old_views.len());
            assert(order@.map_values(|p: usize| p as int) == ord);
            assert(views(self.connections@) =~= permuted(old_views, ord)) by {
                assert forall|a: int| 0 <= a < self.connections@.len() implies views(self.connections@)[a] == permuted(old_views, ord)[a] by {
                    assert(ord[a] == order@[a] as int);
                }
            }
            lemma_desc_before(recency_keys(old_views));
            lemma_stable_order(desc_before(recency_keys(old_views)), old_views.len());
            assert forall|a: int, b: int| 0 <= a < b < self.connections@.len() implies last_used(
                #[trigger] self.connections@[a].history@,
            ) >= last_used(#[trigger] self.connections@[b].history@) by {
                assert(self.connections@[a]@ == old_views[ord[a]]);
                assert(self.connections@[b]@ == old_views[ord[b]]);
                assert(desc_before(recency_keys(old_views))(ord[a], ord[b]));
            }
        }
        let len = self.connections.len();
        let ghost final_views = views(self.connections@);
        let mut found: Option<usize> = None;
        match &selected_key {
            Some(key) => {
                let mut j: usize = 0;
                let mut hit = false;
                while j < len && !hit
                    invariant
                        j <= len,
                        len == self.connections@.len(),
                        final_views == views(self.connections@),
                        forall|a: int| 0 <= a < j ==> spec_connection_key(#[trigger] final_views[a]) != key@,
                        hit ==> j < len && spec_connection_key(final_views[j as int]) == key@,
                    decreases (len - j) as int + (if hit { 0int } else { 1int }),
                {
                    let ck = connection_key(&self.connections[j]);
                    if same_text(ck.as_str(), key.as_str()) {
                        hit = true;
                    } else {
                        j = j + 1;
                    }
                }
                if hit {
                    found = Some(j);
                } else {
                    assert(!exists|i: int| 0 <= i < final_views.len() && spec_connection_key(#[trigger] final_views[i]) == key@);
                }
            },
            None => {},
        }
        match found {
            Some(j) => {
                self.selected = j;
            },
            None => {
                if self.selected >= len {
                    self.selected = if len == 0 {
                        0
                    } else {
                        len - 1
                    };
                }
            },
        }
    }

    /// Replaces the saved connection with the same identity, or adds the
    /// connection at the end where none has it.
    pub fn upsert_connection(&mut self, connection: ConnectionConfig)
        ensures
            match position_of(old(self).spec_connections(), connection@) {
                Some(i) => final(self).spec_connections() == old(self).spec_connections().update(i, connection@),
                None => final(self).spec_connections() == old(self).spec_connections().push(connection@),
            },
            final(self).selected == old(self).selected,
    {
        match position_same_identity(&self.connections, &connection) {
            Some(i) => {
                proof {
                    lemma_position_of(self.spec_connections(), connection@, i as int);
                }
                let ghost before = self.spec_connections();
                self.connections.set(i, connection);
                assert(self.spec_connections() =~= before.update(i as int, connection@));
            },
            None => {
                proof {
                    lemma_position_of_none(self.spec_connections(), connection@);
                }
                let ghost before = self.spec_connections();
                self.connections.push(connection);
                assert(self.spec_connections() =~= before.push(connection@));
            },
        }
    }

    /// Adds a failed attempt at `ts` to the history of the saved connection
    /// with the identity of `config`; false where none has it.
    pub fn record_failure(&mut self, config: &ConnectionConfig, ts: u64) -> (found: bool)
        ensures
            match position_of(old(self).spec_connections(), config@) {
                Some(i) => found && final(self).spec_connections() == old(self).spec_connections().update(
                    i,
                    with_entry(old(self).spec_connections()[i], HistoryEntry { ts, state: HistoryState::Failure }),
                ),
                None => !found && final(self).spec_connections() == old(self).spec_connections(),
            },
            final(self).selected == old(self).selected,
    {
        match position_same_identity(&self.connections, config) {
            Some(i) => {
                proof {
                    lemma_position_of(self.spec_connections(), config@, i as int);
                }
                let ghost before = self.spec_connections();
                let mut updated = self.connections[i].duplicate();
                updated.history.push(HistoryEntry { ts, state: HistoryState::Failure });
                self.connections.set(i, updated);
                assert(self.spec_connections() =~= before.update(
                    i as int,
                    with_entry(before[i as int], HistoryEntry { ts, state: HistoryState::Failure }),
                ));
                true
            },
            None => {
                proof {
                    lemma_position_of_none(self.spec_connections(), config@);
                }
                false
            },
        }
    }

    /// Saves a connection that was just opened: a successful attempt at
    /// `ts` is added to its history and it replaces the saved connection
    /// with its identity, or is added. Gives the connection as saved.
    pub fn record_success(&mut self, config: ConnectionConfig, ts: u64) -> (saved: ConnectionConfig)
        ensures
            saved@ == with_entry(config@, HistoryEntry { ts, state: HistoryState::Success }),
            match position_of(old(self).spec_connections(), config@) {
                Some(i) => final(self).spec_connections() == old(self).spec_connections().update(i, saved@),
                None => final(self).spec_connections() == old(self).spec_connections().push(saved@),
            },
            final(self).selected == old(self).selected,
    {
        let mut config = config;
        let ghost original = config@;
        config.history.push(HistoryEntry { ts, state: HistoryState::Success });
        assert(config@ == with_entry(original, HistoryEntry { ts, state: HistoryState::Success }));
        proof {
            lemma_identity_ignores_history(self.spec_connections(), original, config@);
        }
        let saved = config.duplicate();
        self.upsert_connection(config);
        saved
    }

    /// Saves an edited connection in place of the one at `index`: the
    /// history and last remote directory of the old entry carry over, the
    /// old entry is removed, and the edited one replaces the saved
    /// connection with its identity or is added.
    pub fn apply_edit(&mut self, index: usize, config: ConnectionConfig)
        requires
            index < old(self).connections@.len(),
        ensures
            ({
                let old_list = old(self).spec_connections();
                let edited = ConnectionView {
                    history: old_list[index as int].history,
                    last_remote_dir: old_list[index as int].last_remote_dir,
                    ..config@
                };
                let rest = old_list.remove(index as int);
                match position_of(rest, edited) {
                    Some(i) => final(self).spec_connections() == rest.update(i, edited),
                    None => final(self).spec_connections() == rest.push(edited),
                }
            }),
    {
        let ghost old_list = self.spec_connections();
        let mut config = config;
        config.history = copy_history(&self.connections[index].history);
        config.last_remote_dir = copy_opt_string(&self.connections[index].last_remote_dir);
        self.connections.remove(index);
        assert(self.spec_connections() =~= old_list.remove(index as int));
        self.upsert_connection(config);
    }

    /// Removes the connection at `index`, if there is one, and keeps the
    /// selection within the list.
    pub fn remove_connection(&mut self, index: usize) -> (removed: Option<ConnectionConfig>)
        ensures
            index < old(self).connections@.len() ==> {
                &&& removed matches Some(c) && c@ == old(self).spec_connections()[index as int]
                &&& final(self).spec_connections() == old(self).spec_connections().remove(index as int)
                &&& final(self).selected == if old(self).selected >= final(self).connections@.len()
                    && old(self).selected > 0 {
                    (old(self).selected - 1) as usize
                } else {
                    old(self).selected
                }
            },
            index >= old(self).connections@.len() ==> removed is None && final(self).spec_connections()
                == old(self).spec_connections() && final(self).selected == old(self).selected,
    {
        if index < self.connections.len() {
            let ghost before = self.spec_connections();
            let removed = self.connections.remove(index);
            assert(self.spec_connections() =~= before.remove(index as int));
            if self.selected >= self.connections.len() && self.selected > 0 {
                self.selected = self.selected - 1;
            }
            Some(removed)
        } else {
            None
        }
    }

    /// Moves the selection down one row where there is one below; true
    /// where it moved.
    pub fn select_next(&mut self) -> (moved: bool)
        ensures
            moved == (old(self).selected + 1 < old(self).connections@.len()),
            final(self).selected == if moved {
                (old(self).selected + 1) as usize
            } else {
                old(self).selected
            },
            final(self).connections == old(self).connections,
    {
        if self.selected < self.connections.len() && self.selected + 1 < self.connections.len() {
            self.selected = self.selected + 1;
            true
        } else {
            false
        }
    }

    /// Moves the selection up one row where it is not at the top; true
    /// where it moved.
    pub fn select_previous(&mut self) -> (moved: bool)
        ensures
            moved == (old(self).selected > 0),
            final(self).selected == if moved {
                (old(self).selected - 1) as usize
            } else {
                old(self).selected
            },
            final(self).connections == old(self).connections,
    {
        if self.selected > 0 {
            self.selected = self.selected - 1;
            true
        } else {
            false
        }
    }

    /// Records `dir` as the last remote directory of the saved connection
    /// with the identity of `conn`; false where none has it.
    pub fn set_last_remote_dir(&mut self, conn: &ConnectionConfig, dir: String) -> (found: bool)
        ensures
            match position_of(old(self).spec_connections(), conn@) {
                Some(i) => found && final(self).spec_connections() == old(self).spec_connections().update(
                    i,
                    ConnectionView { last_remote_dir: Some(dir@), ..old(self).spec_connections()[i] },
                ),
                None => !found && final(self).spec_connections() == old(self).spec_connections(),
            },
            final(self).selected == old(self).selected,
    {
        match position_same_identity(&self.connections, conn) {
            Some(i) => {
                proof {
                    lemma_position_of(self.spec_connections(), conn@, i as int);
                }
                let ghost before = self.spec_connections();
                let mut updated = self.connections[i].duplicate();
                updated.last_remote_dir = Some(dir);
                self.connections.set(i, updated);
                assert(self.spec_connections() =~= before.update(
                    i as int,
                    ConnectionView { last_remote_dir: Some(dir@), ..before[i as int] },
                ));
                true
            },
            None => {
                proof {
                    lemma_position_of_none(self.spec_connections(), conn@);
                }
                false
            },
        }
    }
}

/// Ordering by recent use keeps each saved connection exactly once, puts
/// a more recently used one before a less recently used one, and keeps
/// connections used last at the same time in their order.
pub proof fn lemma_by_recent(conns: Seq<ConnectionView>)
    ensures
        ({
            let order = desc_order(recency_keys(conns), conns.len());
            &&& is_permutation(order, conns.len())
            &&& forall|x: int| 0 <= x < conns.len() ==> #[trigger] order.contains(x)
            &&& by_recent(conns) == permuted(conns, order)
            &&& stable_by(order, desc_before(recency_keys(conns)))
        }),
        by_recent(conns).len() == conns.len(),
        forall|a: int, b: int|
            0 <= a < b < conns.len() ==> last_used(#[trigger] by_recent(conns)[a].history) >= last_used(
                #[trigger] by_recent(conns)[b].history,
            ),
{
    let keys = recency_keys(conns);
    let order = desc_order(keys, conns.len());
    lemma_desc_before(keys);
    lemma_stable_order(desc_before(keys), conns.len());
    assert forall|a: int, b: int| 0 <= a < b < conns.len() implies last_used(
        #[trigger] by_recent(conns)[a].history,
    ) >= last_used(#[trigger] by_recent(conns)[b].history) by {
        assert(desc_before(keys)(order[a], order[b]));
        assert(keys[order[a]] == last_used(conns[order[a]].history));
        assert(keys[order[b]] == last_used(conns[order[b]].history));
    }
}

/// The latest attempt in a history with one more entry: the later of the
/// entry and the latest before.
pub proof fn lemma_last_used_push(history: Seq<HistoryEntry>, entry: HistoryEntry)
    ensures
        last_used(history.push(entry)) == if entry.ts > last_used(history) {
            entry.ts
        } else {
            last_used(history)
        },
{
    assert(history.push(entry).drop_last() =~= history);
}

/// A connection saved after a successful attempt at `ts` comes first once
/// the list is ordered by recent use, where `ts` is later than every
/// attempt recorded before.
pub proof fn lemma_connected_comes_first(conns: Seq<ConnectionView>, config: ConnectionView, ts: u64)
    requires
        forall|j: int| 0 <= j < conns.len() ==> last_used(#[trigger] conns[j].history) < ts,
    ensures
        ({
            let saved = with_entry(config, HistoryEntry { ts, state: HistoryState::Success });
            let after = match position_of(conns, config) {
                Some(i) => conns.update(i, saved),
                None => conns.push(saved),
            };
            by_recent(after).len() > 0 && by_recent(after)[0] == saved
        }),
{
    let saved = with_entry(config, HistoryEntry { ts, state: HistoryState::Success });
    let after = match position_of(conns, config) {
        Some(i) => conns.update(i, saved),
        None => conns.push(saved),
    };
    lemma_position_of_range(conns, config);
    let p: int = match position_of(conns, config) {
        Some(i) => i,
        None => conns.len() as int,
    };
    assert(0 <= p < after.len());
    assert(after[p] == saved);
    lemma_last_used_push(config.history, HistoryEntry { ts, state: HistoryState::Success });
    assert(last_used(saved.history) >= ts);
    assert forall|j: int| 0 <= j < after.len() && j != p implies last_used(#[trigger] after[j].history) < ts by {
        assert(after[j] == conns[j]);
    }
    lemma_by_recent(after);
    let keys = recency_keys(after);
    let order = desc_order(keys, after.len());
    assert(order.contains(p));
    let a = choose|a: int| 0 <= a < order.len() && order[a] == p;
    if order[0] != p {
        assert(a > 0);
        assert(last_used(by_recent(after)[0].history) >= last_used(by_recent(after)[a].history));
        assert(by_recent(after)[a] == after[p]);
        assert(by_recent(after)[0] == after[order[0]]);
        assert(0 <= order[0] < after.len());
        assert(false);
    }
    assert(by_recent(after)[0] == after[order[0]]);
}

/// `c` with `entry` added to the end of its history.
pub open spec fn with_entry(c: ConnectionView, entry: HistoryEntry) -> ConnectionView {
    ConnectionView { history: c.history.push(entry), ..c }
}

/// The first position in `list` with the identity of `conn`, if any.
pub open spec fn position_of(list: Seq<ConnectionView>, conn: ConnectionView) -> Option<int>
    decreases list.len(),
{
    if list.len() == 0 {
        None
    } else {
        match position_of(list.drop_last(), conn) {
            Some(i) => Some(i),
            None => if spec_same_identity(list.last(), conn) {
                Some(list.len() - 1)
            } else {
                None
            },
        }
    }
}

proof fn lemma_position_of(list: Seq<ConnectionView>, conn: ConnectionView, i: int)
    requires
        is_first_match(list, conn, i),
    ensures
        position_of(list, conn) == Some(i),
    decreases list.len(),
{
    if i < list.len() - 1 {
        assert(is_first_match(list.drop_last(), conn, i)) by {
            assert forall|j: int| 0 <= j < i implies !spec_same_identity(#[trigger] list.drop_last()[j], conn) by {
                assert(!spec_same_identity(list[j], conn));
            }
        }
        lemma_position_of(list.drop_last(), conn, i);
    } else {
        lemma_position_of_none(list.drop_last(), conn);
    }
}

proof fn lemma_position_of_none(list: Seq<ConnectionView>, conn: ConnectionView)
    requires
        no_match(list, conn),
    ensures
        position_of(list, conn) is None,
    decreases list.len(),
{
    if list.len() > 0 {
        assert(no_match(list.drop_last(), conn)) by {
            assert forall|j: int| 0 <= j < list.drop_last().len() implies !spec_same_identity(#[trigger] list.drop_last()[j], conn) by {
                assert(!spec_same_identity(list[j], conn));
            }
        }
        lemma_position_of_none(list.drop_last(), conn);
        assert(!spec_same_identity(list[list.len() - 1], conn));
    }
}

proof fn lemma_position_of_range(list: Seq<ConnectionView>, conn: ConnectionView)
    ensures
        position_of(list, conn) matches Some(i) ==> 0 <= i < list.len(),
    decreases list.len(),
{
    if list.len() > 0 {
        lemma_position_of_range(list.drop_last(), conn);
    }
}

proof fn lemma_identity_ignores_history(list: Seq<ConnectionView>, a: ConnectionView, b: ConnectionView)
    requires
        a.user == b.user,
        a.host == b.host,
        a.auth == b.auth,
    ensures
        position_of(list, a) == position_of(list, b),
    decreases list.len(),
{
    if list.len() > 0 {
        lemma_identity_ignores_history(list.drop_last(), a, b);
    }
}

/// Lines of history a details pane of `details_height` rows shows: the
/// rows inside the border, less the lines above the history (six, seven
/// with an error line), at least one.
pub open spec fn spec_history_page_size(details_height: nat, has_error: bool) -> nat {
    let inner = crate::layout::sat_sub(details_height, 2);
    let above: nat = if has_error {
        7
    } else {
        6
    };
    crate::layout::max_nat(crate::layout::sat_sub(inner, above), 1)
}

/// Lines of history per page.
pub fn history_page_size(details_height: u16, has_error: bool) -> (r: usize)
    ensures
        r == spec_history_page_size(details_height as nat, has_error),
        r >= 1,
{
    let inner: usize = if details_height >= 2 {
        (details_height - 2) as usize
    } else {
        0
    };
    let above: usize = if has_error {
        7
    } else {
        6
    };
    let rest = if inner >= above {
        inner - above
    } else {
        0
    };
    if rest >= 1 {
        rest
    } else {
        1
    }
}

/// The last page of a history of `history_len` entries.
pub open spec fn spec_max_history_page(history_len: nat, page_size: nat) -> nat {
    if history_len == 0 {
        0
    } else {
        ((history_len - 1) as nat) / page_size
    }
}

/// The last history page.
pub fn max_history_page(details_height: u16, history_len: usize, has_error: bool) -> (r: usize)
    ensures
        r == spec_max_history_page(
            history_len as nat,
            spec_history_page_size(details_height as nat, has_error),
        ),
{
    let page_size = history_page_size(details_height, has_error);
    if history_len == 0 {
        0
    } else {
        (history_len - 1) / page_size
    }
}

/// The entries `[start, end)` (counted from the newest) that page
/// `history_page` shows, the page kept within the history.
pub open spec fn spec_history_range(history_page: nat, history_len: nat, page_size: nat) -> (nat, nat) {
    if history_len == 0 {
        (0, 0)
    } else {
        let page = crate::layout::min_nat(history_page, spec_max_history_page(history_len, page_size));
        let start = page * page_size;
        (start, crate::layout::min_nat(start + page_size, history_len))
    }
}

/// The range of history entries shown on a page.
pub fn history_range(history_page: usize, details_height: u16, history_len: usize, has_error: bool) -> (r: (usize, usize))
    ensures
        (r.0 as nat, r.1 as nat) == spec_history_range(
            history_page as nat,
            history_len as nat,
            spec_history_page_size(details_height as nat, has_error),
        ),
        r.0 <= r.1 <= history_len,
{
    let page_size = history_page_size(details_height, has_error);
    if history_len == 0 {
        return (0, 0);
    }
    let max_page = (history_len - 1) / page_size;
    let page = if history_page < max_page {
        history_page
    } else {
        max_page
    };
    proof {
        assert(page * page_size <= max_page * page_size) by (nonlinear_arith)
            requires
                page <= max_page,
        ;
        assert(max_page * page_size <= (history_len - 1) as int) by (nonlinear_arith)
            requires
                max_page == (history_len - 1) / page_size as int,
                page_size >= 1,
        ;
    }
    let start = page * page_size;
    let end = if page_size < history_len - start {
        start + page_size
    } else {
        history_len
    };
    (start, end)
}

/// The page number (from one) and the page count shown above a history.
pub fn history_page_label(history_page: usize, details_height: u16, history_len: usize, has_error: bool) -> (r: (usize, usize))
    ensures
        r.0 as nat == crate::layout::min_nat(
            history_page as nat,
            spec_max_history_page(history_len as nat, spec_history_page_size(details_height as nat, has_error)),
        ) + 1,
        r.1 as nat == spec_max_history_page(
            history_len as nat,
            spec_history_page_size(details_height as nat, has_error),
        ) + 1,
{
    let max_page = max_history_page(details_height, history_len, has_error);
    let page = if history_page < max_page {
        history_page
    } else {
        max_page
    };
    (page + 1, max_page + 1)
}

/// The entries a history page lists: newest first, from `start` to `end`.
pub fn history_window(history: &Vec<HistoryEntry>, start: usize, end: usize) -> (r: Vec<HistoryEntry>)
    requires
        start <= end,
    ensures
        r@ == history@.reverse().subrange(
            crate::layout::min_nat(start as nat, history@.len()) as int,
            crate::layout::min_nat(end as nat, history@.len()) as int,
        ),
{
    let len = history.len();
    let from = if start < len {
        start
    } else {
        len
    };
    let to = if end < len {
        end
    } else {
        len
    };
    let mut out: Vec<HistoryEntry> = Vec::new();
    let mut k = from;
    while k < to
        invariant
            from <= k <= to <= len,
            len == history@.len(),
            out@ =~= history@.reverse().subrange(from as int, k as int),
        decreases to - k,
    {
        let e = history[len - 1 - k];
        out.push(HistoryEntry { ts: e.ts, state: e.state });
        k = k + 1;
    }
    out
}

/// The status line of a saved connection.
pub fn connection_status(connected: bool, has_error: bool, history_empty: bool) -> (r: &'static str)
    ensures
        connected ==> r@ == "Connected"@,
        !connected && has_error ==> r@ == "Failed"@,
        !connected && !has_error && history_empty ==> r@ == "Never connected"@,
        !connected && !has_error && !history_empty ==> r@ == "Not connected"@,
{
    if connected {
        "Connected"
    } else if has_error {
        "Failed"
    } else if history_empty {
        "Never connected"
    } else {
        "Not connected"
    }
}

/// How a saved connection authenticates, in words.
pub fn auth_summary(auth: &AuthConfig) -> (r: &'static str)
    ensures
        auth is Password ==> r@ == "Password"@,
        auth matches AuthConfig::PrivateKey { password: None, .. } ==> r@ == "Private key"@,
        auth matches AuthConfig::PrivateKey { password: Some(_), .. } ==> r@ == "Private key + password"@,
{
    match auth {
        AuthConfig::Password { .. } => "Password",
        AuthConfig::PrivateKey { password: None, .. } => "Private key",
        AuthConfig::PrivateKey { password: Some(_), .. } => "Private key + password",
    }
}

/// The selected terminal tab after the tab at `index` is closed: one to
/// the left where the selection was at or after it (and not the first).
pub fn tab_after_disconnect(selected_tab: usize, index: usize) -> (r: usize)
    ensures
        r == if selected_tab > 0 && selected_tab >= index {
            (selected_tab - 1) as usize
        } else {
            selected_tab
        },
{
    if selected_tab > 0 && selected_tab >= index {
        selected_tab - 1
    } else {
        selected_tab
    }
}

/// The key paths saved connections use, each once, in the order first met,
/// with the password of the connection that first uses it.
pub open spec fn key_candidates(conns: Seq<ConnectionView>) -> Seq<(Seq<char>, Option<Seq<char>>)>
    decreases conns.len(),
{
    if conns.len() == 0 {
        Seq::empty()
    } else {
        let rest = key_candidates(conns.drop_last());
        match conns.last().auth {
            AuthView::PrivateKey { path, password } => if exists|k: int|
                0 <= k < rest.len() && (#[trigger] rest[k]).0 == path {
                rest
            } else {
                rest.push((path, password))
            },
            AuthView::Password { .. } => rest,
        }
    }
}

/// The view of a key candidate.
pub open spec fn candidate_view(c: KeyCandidate) -> (Seq<char>, Option<Seq<char>>) {
    (c.path@, opt_view(c.password))
}

impl ConnectionList {
    /// The private keys that saved connections use, each once, in order.
    pub fn collect_key_candidates(&self) -> (r: Vec<KeyCandidate>)
        ensures
            r@.map_values(|c: KeyCandidate| candidate_view(c)) == key_candidates(self.spec_connections()),
    {
        let ghost all = self.spec_connections();
        let mut out: Vec<KeyCandidate> = Vec::new();
        let mut i: usize = 0;
        while i < self.connections.len()
            invariant
                i <= self.connections.len(),
                all == views(self.connections@),
                out@.map_values(|c: KeyCandidate| candidate_view(c)) == key_candidates(all.take(i as int)),
            decreases self.connections.len() - i,
        {
            let ghost prev = out@.map_values(|c: KeyCandidate| candidate_view(c));
            assert(all.take(i + 1).drop_last() =~= all.take(i as int));
            assert(all.take(i + 1).last() == self.connections@[i as int]@);
            match &self.connections[i].auth {
                AuthConfig::PrivateKey { path, password } => {
                    let mut seen = false;
                    let mut k: usize = 0;
                    while k < out.len() && !seen
                        invariant
                            k <= out.len(),
                            prev == out@.map_values(|c: KeyCandidate| candidate_view(c)),
                            !seen ==> forall|m: int| 0 <= m < k ==> (#[trigger] prev[m]).0 != path@,
                            seen ==> exists|m: int| 0 <= m < prev.len() && (#[trigger] prev[m]).0 == path@,
                        decreases (out.len() - k) as int + (if seen { 0int } else { 1int }),
                    {
                        if same_text(out[k].path.as_str(), path.as_str()) {
                            seen = true;
                            assert(prev[k as int].0 == path@);
                        } else {
                            k = k + 1;
                        }
                    }
                    if !seen {
                        let c = KeyCandidate { path: path.clone(), password: copy_opt_string(password) };
                        proof {
                            assert(out@.push(c).map_values(|c: KeyCandidate| candidate_view(c)) =~= prev.push(candidate_view(c)));
                        }
                        out.push(c);
                    }
                },
                AuthConfig::Password { .. } => {},
            }
            i = i + 1;
        }
        assert(all.take(self.connections.len() as int) =~= all);
        out
    }

    /// The remote directory a picker opens at for `conn`: the last one used
    /// with its saved connection, otherwise the user's home under /home.
    pub fn remote_start_dir(&self, conn: &ConnectionConfig) -> (r: String)
        ensures
            r@ == match position_of(self.spec_connections(), conn@) {
                Some(i) => match self.spec_connections()[i].last_remote_dir {
                    Some(d) => d,
                    None => seq!['/', 'h', 'o', 'm', 'e', '/'] + conn.user@,
                },
                None => seq!['/', 'h', 'o', 'm', 'e', '/'] + conn.user@,
            },
    {
        let found = position_same_identity(&self.connections, conn);
        proof {
            match found {
                Some(i) => lemma_position_of(self.spec_connections(), conn@, i as int),
                None => lemma_position_of_none(self.spec_connections(), conn@),
            }
        }
        if let Some(i) = found {
            if let Some(d) = &self.connections[i].last_remote_dir {
                return d.clone();
            }
        }
        let mut chars: Vec<char> = Vec::new();
        chars.push('/');
        chars.push('h');
        chars.push('o');
        chars.push('m');
        chars.push('e');
        chars.push('/');
        let mut user = to_chars(conn.user.as_str());
        chars.append(&mut user);
        assert(chars@ =~= seq!['/', 'h', 'o', 'm', 'e', '/'] + conn.user@);
        from_chars(chars.as_slice())
    }

    /// What the delete prompt calls the connection at `index`: its label,
    /// or "Unknown" where there is none.
    pub fn delete_label(&self, index: Option<usize>) -> (r: String)
        ensures
            match index {
                Some(i) if i < self.connections@.len() => r@ == self.connections@[i as int].spec_label(),
                _ => r@ == seq!['U', 'n', 'k', 'n', 'o', 'w', 'n'],
            },
    {
        if let Some(i) = index {
            if i < self.connections.len() {
                return self.connections[i].label();
            }
        }
        from_chars(&['U', 'n', 'k', 'n', 'o', 'w', 'n'])
    }
}

} // verus!
