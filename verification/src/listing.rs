//! Directory listings for the pickers: which entries show, and in what
//! order.
use vstd::prelude::*;

use crate::model::RemoteEntry;
use crate::order::{insert_by, is_permutation, is_total_preorder, lemma_stable_order, sorted_by, stable_by, stable_order};
use crate::text::{from_chars, to_chars};

verus! {

/// Whether `a` comes before `b` in lexicographic order of code points.
pub open spec fn lex_lt(a: Seq<char>, b: Seq<char>) -> bool
    decreases a.len(),
{
    if a.len() == 0 {
        b.len() > 0
    } else if b.len() == 0 {
        false
    } else if (a[0] as u32) != (b[0] as u32) {
        (a[0] as u32) < (b[0] as u32)
    } else {
        lex_lt(a.drop_first(), b.drop_first())
    }
}

proof fn lemma_lex_asym(a: Seq<char>, b: Seq<char>)
    ensures
        !(lex_lt(a, b) && lex_lt(b, a)),
    decreases a.len(),
{
    if a.len() > 0 && b.len() > 0 && (a[0] as u32) == (b[0] as u32) {
        lemma_lex_asym(a.drop_first(), b.drop_first());
    }
}

proof fn lemma_lex_cotrans(a: Seq<char>, b: Seq<char>, c: Seq<char>)
    ensures
        lex_lt(a, c) ==> lex_lt(a, b) || lex_lt(b, c),
    decreases a.len(),
{
    if a.len() > 0 && b.len() > 0 && c.len() > 0 && (a[0] as u32) == (c[0] as u32) && (b[0] as u32) == (a[0] as u32) {
        lemma_lex_cotrans(a.drop_first(), b.drop_first(), c.drop_first());
    }
}

/// The ascending order of names: position `a` may stand before `b` when
/// `b`'s name is not smaller.
pub open spec fn name_before(names: Seq<Seq<char>>) -> spec_fn(int, int) -> bool {
    |a: int, b: int| !lex_lt(names[b], names[a])
}

/// Ascending name order is a total preorder.
pub proof fn lemma_name_before(names: Seq<Seq<char>>)
    ensures
        is_total_preorder(name_before(names)),
{
    let before = name_before(names);
    assert forall|a: int, b: int| #[trigger] before(a, b) || before(b, a) by {
        lemma_lex_asym(names[a], names[b]);
    }
    assert forall|a: int, b: int, c: int| #[trigger] before(a, b) && #[trigger] before(b, c) implies before(a, c) by {
        lemma_lex_cotrans(names[c], names[b], names[a]);
    }
}

/// Whether `a` comes before `b` in lexicographic order of code points.
pub fn chars_less(a: &Vec<char>, b: &Vec<char>) -> (r: bool)
    ensures
        r == lex_lt(a@, b@),
{
    let mut i: usize = 0;
    assert(a@.subrange(0, a@.len() as int) =~= a@);
    assert(b@.subrange(0, b@.len() as int) =~= b@);
    while i < a.len() && i < b.len() && (a[i] as u32) == (b[i] as u32)
        invariant
            i <= a.len(),
            i <= b.len(),
            lex_lt(a@, b@) == lex_lt(a@.subrange(i as int, a@.len() as int), b@.subrange(i as int, b@.len() as int)),
        decreases a.len() - i,
    {
        let ghost sa = a@.subrange(i as int, a@.len() as int);
        let ghost sb = b@.subrange(i as int, b@.len() as int);
        assert(sa.drop_first() =~= a@.subrange(i + 1, a@.len() as int));
        assert(sb.drop_first() =~= b@.subrange(i + 1, b@.len() as int));
        i = i + 1;
    }
    let ghost sa = a@.subrange(i as int, a@.len() as int);
    let ghost sb = b@.subrange(i as int, b@.len() as int);
    if i == a.len() {
        assert(sa.len() == 0);
        i < b.len()
    } else if i == b.len() {
        false
    } else {
        assert(sa[0] == a@[i as int] && sb[0] == b@[i as int]);
        (a[i] as u32) < (b[i] as u32)
    }
}

/// `s` in lower case.
pub uninterp spec fn lowercased(s: Seq<char>) -> Seq<char>;

/// `s` in lower case.
///
/// Wraps `str::to_lowercase`; the contract names the result, which depends
/// on the characters of `s` alone.
#[verifier::external_body]
fn lowercase(s: &str) -> (r: String)
    ensures
        r@ == lowercased(s@),
{
    s.to_lowercase()
}

/// The lower-case names of a list of names.
pub open spec fn lowered(names: Seq<String>) -> Seq<Seq<char>> {
    names.map_values(|n: String| lowercased(n@))
}

fn insert_position_name(order: &mut Vec<usize>, keys: &Vec<Vec<char>>, i: usize, Ghost(names): Ghost<Seq<Seq<char>>>)
    requires
        i < keys.len(),
        names.len() == keys.len(),
        forall|k: int| 0 <= k < keys.len() ==> #[trigger] keys@[k]@ == names[k],
        forall|a: int| 0 <= a < old(order)@.len() ==> #[trigger] old(order)@[a] < keys.len(),
        old(order)@.len() < usize::MAX,
    ensures
        final(order)@.map_values(|p: usize| p as int) == insert_by(
            old(order)@.map_values(|p: usize| p as int),
            name_before(names),
            i as int,
        ),
        forall|a: int| 0 <= a < final(order)@.len() ==> #[trigger] final(order)@[a] < keys.len(),
{
    let ghost before = name_before(names);
    let ghost start = order@.map_values(|p: usize| p as int);
    let mut pos: usize = order.len();
    assert(start.take(pos as int) =~= start);
    assert(start.subrange(pos as int, start.len() as int) =~= Seq::<int>::empty());
    while pos > 0 && chars_less(&keys[i], &keys[order[pos - 1]])
        invariant
            pos <= order@.len(),
            order@.map_values(|p: usize| p as int) == start,
            forall|a: int| 0 <= a < order@.len() ==> #[trigger] order@[a] < keys.len(),
            i < keys.len(),
            names.len() == keys.len(),
            forall|k: int| 0 <= k < keys.len() ==> #[trigger] keys@[k]@ == names[k],
            before == name_before(names),
            insert_by(start, before, i as int) == insert_by(start.take(pos as int), before, i as int)
                + start.subrange(pos as int, start.len() as int),
        decreases pos,
    {
        let ghost pre = start.take(pos as int);
        assert(pre.drop_last() =~= start.take(pos - 1));
        assert(pre.last() == order@[pos - 1] as int);
        assert(keys@[order@[pos - 1] as int]@ == names[pre.last()]);
        assert(keys@[i as int]@ == names[i as int]);
        assert(insert_by(pre, before, i as int) =~= insert_by(start.take(pos - 1), before, i as int).push(pre.last()));
        assert(start.subrange(pos - 1, start.len() as int) =~= seq![pre.last()] + start.subrange(pos as int, start.len() as int));
        assert(insert_by(start.take(pos - 1), before, i as int).push(pre.last()) + start.subrange(pos as int, start.len() as int)
            =~= insert_by(start.take(pos - 1), before, i as int) + start.subrange(pos - 1, start.len() as int));
        pos = pos - 1;
    }
    let ghost pre = start.take(pos as int);
    assert(insert_by(pre, before, i as int) =~= pre.push(i as int)) by {
        if pre.len() > 0 {
            assert(pre.last() == order@[pos - 1] as int);
            assert(keys@[order@[pos - 1] as int]@ == names[pre.last()]);
            assert(keys@[i as int]@ == names[i as int]);
        }
    }
    order.insert(pos, i);
    assert(order@.map_values(|p: usize| p as int) =~= pre.push(i as int) + start.subrange(pos as int, start.len() as int));
}

/// The positions of `names` ordered by their lower-case form, ties kept in
/// their original order.
pub fn order_by_name(names: &Vec<String>) -> (r: Vec<usize>)
    ensures
        r@.map_values(|p: usize| p as int) == stable_order(name_before(lowered(names@)), names@.len()),
        r@.len() == names@.len(),
        forall|a: int| 0 <= a < r@.len() ==> #[trigger] r@[a] < names@.len(),
{
    let ghost low = lowered(names@);
    let mut keys: Vec<Vec<char>> = Vec::new();
    let mut k: usize = 0;
    while k < names.len()
        invariant
            k <= names.len(),
            keys@.len() == k,
            low == lowered(names@),
            forall|j: int| 0 <= j < k ==> #[trigger] keys@[j]@ == low[j],
        decreases names.len() - k,
    {
        let l = lowercase(names[k].as_str());
        keys.push(to_chars(l.as_str()));
        k = k + 1;
    }
    let mut order: Vec<usize> = Vec::new();
    let mut i: usize = 0;
    assert(order@.map_values(|p: usize| p as int) =~= Seq::<int>::empty());
    while i < names.len()
        invariant
            i <= names.len(),
            keys@.len() == names@.len(),
            low == lowered(names@),
            forall|j: int| 0 <= j < keys@.len() ==> #[trigger] keys@[j]@ == low[j],
            order@.map_values(|p: usize| p as int) == stable_order(name_before(low), i as nat),
            order@.len() == i,
            forall|a: int| 0 <= a < order@.len() ==> #[trigger] order@[a] < names.len(),
        decreases names.len() - i,
    {
        proof {
            lemma_name_before(low);
            lemma_stable_order(name_before(low), i as nat);
        }
        insert_position_name(&mut order, &keys, i, Ghost(low));
        proof {
            lemma_stable_order(name_before(low), (i + 1) as nat);
        }
        i = i + 1;
    }
    order
}

/// A stable ordering by name is sorted, stable and lists every position once.
pub proof fn lemma_order_by_name(names: Seq<String>)
    ensures
        sorted_by(stable_order(name_before(lowered(names)), names.len()), name_before(lowered(names))),
        stable_by(stable_order(name_before(lowered(names)), names.len()), name_before(lowered(names))),
        is_permutation(stable_order(name_before(lowered(names)), names.len()), names.len()),
{
    lemma_name_before(lowered(names));
    lemma_stable_order(name_before(lowered(names)), names.len());
}

/// The entries "." and "..".
pub open spec fn is_dot_entry(name: Seq<char>) -> bool {
    name == seq!['.'] || name == seq!['.', '.']
}

/// A name that starts with a dot is hidden.
pub open spec fn is_hidden(name: Seq<char>) -> bool {
    name.len() > 0 && name[0] == '.'
}

/// Whether an entry shows in a listing.
pub open spec fn shows(name: Seq<char>, is_dir: bool, only_dirs: bool, show_hidden: bool) -> bool {
    &&& !is_dot_entry(name)
    &&& (show_hidden || !is_hidden(name))
    &&& (!only_dirs || is_dir)
}

/// Whether the permission bits of a remote entry mark a directory
/// (no bits read as a file).
pub open spec fn perm_is_dir(perm: Option<u32>) -> bool {
    match perm {
        Some(p) => p & 0o040000u32 != 0,
        None => false,
    }
}

/// The path of entry `name` in remote directory `cwd`.
pub open spec fn joined_path(cwd: Seq<char>, name: Seq<char>) -> Seq<char> {
    if cwd == seq!['/'] {
        seq!['/'] + name
    } else {
        cwd + seq!['/'] + name
    }
}

/// The view of a remote entry: name, path, whether a directory.
pub open spec fn entry_view(e: RemoteEntry) -> (Seq<char>, Seq<char>, bool) {
    (e.name@, e.path@, e.is_dir)
}

/// The entries of a remote directory that show, in the order read.
pub open spec fn shown_remote(names: Seq<Seq<char>>, perms: Seq<Option<u32>>, cwd: Seq<char>, only_dirs: bool, show_hidden: bool) -> Seq<(Seq<char>, Seq<char>, bool)>
    decreases names.len(),
{
    if names.len() == 0 || perms.len() != names.len() {
        Seq::empty()
    } else {
        let rest = shown_remote(names.drop_last(), perms.drop_last(), cwd, only_dirs, show_hidden);
        let name = names.last();
        let is_dir = perm_is_dir(perms.last());
        if shows(name, is_dir, only_dirs, show_hidden) {
            rest.push((name, joined_path(cwd, name), is_dir))
        } else {
            rest
        }
    }
}

/// The names of a list of entry views.
pub open spec fn entry_names(entries: Seq<(Seq<char>, Seq<char>, bool)>) -> Seq<Seq<char>> {
    entries.map_values(|e: (Seq<char>, Seq<char>, bool)| lowercased(e.0))
}

/// Whether the permission bits of a remote entry mark a directory.
pub fn perm_marks_dir(perm: Option<u32>) -> (r: bool)
    ensures
        r == perm_is_dir(perm),
{
    match perm {
        Some(p) => p & 0o040000u32 != 0,
        None => false,
    }
}

/// Whether a name is "." or "..", which directory walks pass over.
pub fn is_dot_name(name: &str) -> (r: bool)
    ensures
        r == is_dot_entry(name@),
{
    let chars = to_chars(name);
    is_dot_or_hidden(&chars).0
}

fn is_dot_or_hidden(name: &Vec<char>) -> (r: (bool, bool))
    ensures
        r.0 == is_dot_entry(name@),
        r.1 == is_hidden(name@),
{
    let dot = (name.len() == 1 && name[0] == '.') || (name.len() == 2 && name[0] == '.' && name[1]
        == '.');
    proof {
        if name@.len() == 1 && name@[0] == '.' {
            assert(name@ =~= seq!['.']);
        }
        if name@.len() == 2 && name@[0] == '.' && name@[1] == '.' {
            assert(name@ =~= seq!['.', '.']);
        }
    }
    (dot, name.len() > 0 && name[0] == '.')
}

fn path_in(cwd: &Vec<char>, name: &Vec<char>) -> (r: String)
    ensures
        r@ == joined_path(cwd@, name@),
        cwd@ == seq!['/'] ==> r@ == seq!['/'] + name@,
        cwd@ != seq!['/'] ==> r@ == cwd@ + seq!['/'] + name@,
{
    let mut out: Vec<char> = Vec::new();
    let root = cwd.len() == 1 && cwd[0] == '/';
    proof {
        if cwd@.len() == 1 && cwd@[0] == '/' {
            assert(cwd@ =~= seq!['/']);
        }
    }
    if !root {
        let mut c = cwd.clone();
        out.append(&mut c);
    }
    out.push('/');
    let mut n = name.clone();
    out.append(&mut n);
    assert(out@ =~= joined_path(cwd@, name@));
    from_chars(out.as_slice())
}

/// An entry of a listing of `cwd`: its path is `cwd`, one slash and its
/// name (just the slash and the name in the root); it is no "." or "..",
/// a directory where only directories are asked for, and not hidden
/// unless hidden names are asked for.
pub open spec fn listed_well(e: RemoteEntry, cwd: Seq<char>, only_dirs: bool, show_hidden: bool) -> bool {
    &&& cwd == seq!['/'] ==> e.path@ == seq!['/'] + e.name@
    &&& cwd != seq!['/'] ==> e.path@ == cwd + seq!['/'] + e.name@
    &&& only_dirs ==> e.is_dir
    &&& !show_hidden ==> !(e.name@.len() > 0 && e.name@[0] == '.')
    &&& e.name@ != seq!['.'] && e.name@ != seq!['.', '.']
}

/// Builds a remote directory listing from the names and permission bits
/// read from the server: "." and ".." are dropped, so are hidden names
/// unless asked for and files where only directories are asked for; each
/// entry gets its path in `cwd`; the entries are ordered by lower-case
/// name, ties in the order read.
pub fn remote_listing(cwd: &str, names: &Vec<String>, perms: &Vec<Option<u32>>, only_dirs: bool, show_hidden: bool) -> (r: Vec<RemoteEntry>)
    requires
        names@.len() == perms@.len(),
    ensures
        ({
            let shown = shown_remote(names@.map_values(|n: String| n@), perms@, cwd@, only_dirs, show_hidden);
            let order = stable_order(name_before(entry_names(shown)), shown.len());
            &&& r@.len() == shown.len()
            &&& forall|k: int| 0 <= k < r@.len() ==> #[trigger] entry_view(r@[k]) == shown[order[k]]
        }),
        forall|k: int| 0 <= k < r@.len() ==> {
            let e = #[trigger] r@[k];
            &&& cwd@ == seq!['/'] ==> e.path@ == seq!['/'] + e.name@
            &&& cwd@ != seq!['/'] ==> e.path@ == cwd@ + seq!['/'] + e.name@
            &&& only_dirs ==> e.is_dir
            &&& !show_hidden ==> !(e.name@.len() > 0 && e.name@[0] == '.')
            &&& e.name@ != seq!['.'] && e.name@ != seq!['.', '.']
        },
{
    let ghost nv = names@.map_values(|n: String| n@);
    let cwd_chars = to_chars(cwd);
    let mut shown: Vec<RemoteEntry> = Vec::new();
    let mut shown_names: Vec<String> = Vec::new();
    let mut i: usize = 0;
    while i < names.len()
        invariant
            i <= names.len(),
            names@.len() == perms@.len(),
            cwd_chars@ == cwd@,
            nv == names@.map_values(|n: String| n@),
            shown@.map_values(|e: RemoteEntry| entry_view(e)) == shown_remote(nv.take(i as int), perms@.take(i as int), cwd@, only_dirs, show_hidden),
            shown_names@.len() == shown@.len(),
            forall|k: int| 0 <= k < shown@.len() ==> #[trigger] shown_names@[k]@ == shown@[k].name@,
            forall|k: int| 0 <= k < shown@.len() ==> listed_well(#[trigger] shown@[k], cwd@, only_dirs, show_hidden),
        decreases names.len() - i,
    {
        let name_chars = to_chars(names[i].as_str());
        let is_dir = match perms[i] {
            Some(p) => p & 0o040000u32 != 0,
            None => false,
        };
        let (dot, hidden) = is_dot_or_hidden(&name_chars);
        let keep = !dot && (show_hidden || !hidden) && (!only_dirs || is_dir);
        proof {
            assert(nv.take(i + 1).drop_last() =~= nv.take(i as int));
            assert(perms@.take(i + 1).drop_last() =~= perms@.take(i as int));
            assert(nv.take(i + 1).last() == names@[i as int]@);
            assert(perms@.take(i + 1).last() == perms@[i as int]);
        }
        if keep {
            let path = path_in(&cwd_chars, &name_chars);
            let e = RemoteEntry { name: names[i].clone(), path, is_dir };
            shown_names.push(names[i].clone());
            proof {
                assert(shown@.push(e).map_values(|e: RemoteEntry| entry_view(e)) =~= shown@.map_values(
                    |e: RemoteEntry| entry_view(e),
                ).push(entry_view(e)));
            }
            shown.push(e);
        }
        i = i + 1;
    }
    assert(nv.take(names.len() as int) =~= nv);
    assert(perms@.take(names.len() as int) =~= perms@);
    let ghost sv = shown@.map_values(|e: RemoteEntry| entry_view(e));
    let order = order_by_name(&shown_names);
    assert(lowered(shown_names@) =~= entry_names(sv)) by {
        assert forall|k: int| 0 <= k < shown_names@.len() implies lowered(shown_names@)[k] == entry_names(sv)[k] by {
            assert(shown_names@[k]@ == shown@[k].name@);
        }
    }
    let mut out: Vec<RemoteEntry> = Vec::new();
    let mut k: usize = 0;
    while k < order.len()
        invariant
            k <= order.len(),
            order@.len() == shown@.len(),
            forall|a: int| 0 <= a < order@.len() ==> #[trigger] order@[a] < shown@.len(),
            order@.map_values(|p: usize| p as int) == stable_order(name_before(entry_names(sv)), sv.len()),
            sv == shown@.map_values(|e: RemoteEntry| entry_view(e)),
            out@.len() == k,
            forall|a: int| 0 <= a < k ==> #[trigger] entry_view(out@[a]) == sv[order@[a] as int],
            forall|a: int| 0 <= a < shown@.len() ==> listed_well(#[trigger] shown@[a], cwd@, only_dirs, show_hidden),
            forall|a: int| 0 <= a < k ==> listed_well(#[trigger] out@[a], cwd@, only_dirs, show_hidden),
        decreases order.len() - k,
    {
        let src = &shown[order[k]];
        let e = RemoteEntry { name: src.name.clone(), path: src.path.clone(), is_dir: src.is_dir };
        out.push(e);
        k = k + 1;
    }
    proof {
        let ord = stable_order(name_before(entry_names(sv)), sv.len());
        assert forall|a: int| 0 <= a < out@.len() implies #[trigger] entry_view(out@[a]) == sv[ord[a]] by {
            assert(ord[a] == order@.map_values(|p: usize| p as int)[a]);
        }
    }
    out
}

/// The positions of the local entries that show (see `shows`), in the
/// order read.
pub open spec fn shown_local(names: Seq<Seq<char>>, is_dir: Seq<bool>, only_dirs: bool, show_hidden: bool) -> Seq<int>
    decreases names.len(),
{
    if names.len() == 0 || is_dir.len() != names.len() {
        Seq::empty()
    } else {
        let rest = shown_local(names.drop_last(), is_dir.drop_last(), only_dirs, show_hidden);
        if shows(names.last(), is_dir.last(), only_dirs, show_hidden) {
            rest.push(names.len() - 1)
        } else {
            rest
        }
    }
}

/// Position `p` names an entry that may be listed: it is in range, no "."
/// or "..", a directory where only directories are asked for, and not
/// hidden unless hidden names are asked for.
pub open spec fn kept_well(p: int, names: Seq<String>, is_dir: Seq<bool>, only_dirs: bool, show_hidden: bool) -> bool {
    &&& 0 <= p < names.len()
    &&& only_dirs ==> is_dir[p]
    &&& !show_hidden ==> !(names[p]@.len() > 0 && names[p]@[0] == '.')
    &&& names[p]@ != seq!['.'] && names[p]@ != seq!['.', '.']
}

/// The positions of a local directory's entries as the picker lists them:
/// "." and "..", hidden names unless asked for and files where only
/// directories are asked for are left out; the rest are ordered by
/// lower-case name, ties in the order read.
pub fn local_listing_order(names: &Vec<String>, is_dir: &Vec<bool>, only_dirs: bool, show_hidden: bool) -> (r: Vec<usize>)
    requires
        names@.len() == is_dir@.len(),
    ensures
        ({
            let nv = names@.map_values(|n: String| n@);
            let kept = shown_local(nv, is_dir@, only_dirs, show_hidden);
            let order = stable_order(name_before(kept.map_values(|p: int| lowercased(nv[p]))), kept.len());
            &&& r@.len() == kept.len()
            &&& forall|k: int| 0 <= k < r@.len() ==> #[trigger] r@[k] as int == kept[order[k]]
        }),
        forall|k: int| 0 <= k < r@.len() ==> {
            let p = #[trigger] r@[k] as int;
            &&& 0 <= p < names@.len()
            &&& only_dirs ==> is_dir@[p]
            &&& !show_hidden ==> !(names@[p]@.len() > 0 && names@[p]@[0] == '.')
            &&& names@[p]@ != seq!['.'] && names@[p]@ != seq!['.', '.']
        },
{
    let ghost nv = names@.map_values(|n: String| n@);
    let mut kept: Vec<usize> = Vec::new();
    let mut kept_names: Vec<String> = Vec::new();
    let mut i: usize = 0;
    while i < names.len()
        invariant
            i <= names.len(),
            names@.len() == is_dir@.len(),
            nv == names@.map_values(|n: String| n@),
            kept@.map_values(|p: usize| p as int) == shown_local(nv.take(i as int), is_dir@.take(i as int), only_dirs, show_hidden),
            kept_names@.len() == kept@.len(),
            forall|k: int| 0 <= k < kept@.len() ==> #[trigger] kept@[k] < i,
            forall|k: int| 0 <= k < kept@.len() ==> #[trigger] kept_names@[k]@ == nv[kept@[k] as int],
            forall|k: int| 0 <= k < kept@.len() ==> kept_well(#[trigger] kept@[k] as int, names@, is_dir@, only_dirs, show_hidden),
        decreases names.len() - i,
    {
        let name_chars = to_chars(names[i].as_str());
        let (dot, hidden) = is_dot_or_hidden(&name_chars);
        let keep = !dot && (show_hidden || !hidden) && (!only_dirs || is_dir[i]);
        proof {
            assert(nv.take(i + 1).drop_last() =~= nv.take(i as int));
            assert(is_dir@.take(i + 1).drop_last() =~= is_dir@.take(i as int));
            assert(nv.take(i + 1).last() == names@[i as int]@);
        }
        if keep {
            kept.push(i);
            kept_names.push(names[i].clone());
            proof {
                assert(kept@.map_values(|p: usize| p as int) =~= shown_local(nv.take(i as int), is_dir@.take(i as int), only_dirs, show_hidden).push(i as int));
            }
        }
        i = i + 1;
    }
    assert(nv.take(names.len() as int) =~= nv);
    assert(is_dir@.take(names.len() as int) =~= is_dir@);
    let ghost kv = kept@.map_values(|p: usize| p as int);
    let order = order_by_name(&kept_names);
    assert(lowered(kept_names@) =~= kv.map_values(|p: int| lowercased(nv[p])));
    let mut out: Vec<usize> = Vec::new();
    let mut k: usize = 0;
    while k < order.len()
        invariant
            k <= order.len(),
            order@.len() == kept@.len(),
            forall|a: int| 0 <= a < order@.len() ==> #[trigger] order@[a] < kept@.len(),
            kv == kept@.map_values(|p: usize| p as int),
            out@.len() == k,
            forall|a: int| 0 <= a < k ==> #[trigger] out@[a] as int == kv[order@[a] as int],
            forall|a: int| 0 <= a < kept@.len() ==> kept_well(#[trigger] kept@[a] as int, names@, is_dir@, only_dirs, show_hidden),
            forall|a: int| 0 <= a < k ==> kept_well(#[trigger] out@[a] as int, names@, is_dir@, only_dirs, show_hidden),
        decreases order.len() - k,
    {
        out.push(kept[order[k]]);
        k = k + 1;
    }
    proof {
        let ord = stable_order(name_before(kv.map_values(|p: int| lowercased(nv[p]))), kv.len());
        assert forall|a: int| 0 <= a < out@.len() implies #[trigger] out@[a] as int == kv[ord[a]] by {
            assert(ord[a] == order@.map_values(|p: usize| p as int)[a]);
        }
    }
    out
}

/// Every entry of a remote listing sits in the listed directory: its path
/// is the directory, one slash and its name (the slash and the name in the
/// root); and where only directories are asked for, every entry is one.
pub proof fn lemma_remote_entries_in_dir(names: Seq<Seq<char>>, perms: Seq<Option<u32>>, cwd: Seq<char>, only_dirs: bool, show_hidden: bool)
    ensures
        forall|k: int| 0 <= k < shown_remote(names, perms, cwd, only_dirs, show_hidden).len() ==> {
            let e = #[trigger] shown_remote(names, perms, cwd, only_dirs, show_hidden)[k];
            &&& cwd == seq!['/'] ==> e.1 == seq!['/'] + e.0
            &&& cwd != seq!['/'] ==> e.1 == cwd + seq!['/'] + e.0
            &&& only_dirs ==> e.2
        },
    decreases names.len(),
{
    if names.len() > 0 && perms.len() == names.len() {
        lemma_remote_entries_in_dir(names.drop_last(), perms.drop_last(), cwd, only_dirs, show_hidden);
        let rest = shown_remote(names.drop_last(), perms.drop_last(), cwd, only_dirs, show_hidden);
        let all = shown_remote(names, perms, cwd, only_dirs, show_hidden);
        assert forall|k: int| 0 <= k < all.len() implies {
            let e = #[trigger] all[k];
            &&& cwd == seq!['/'] ==> e.1 == seq!['/'] + e.0
            &&& cwd != seq!['/'] ==> e.1 == cwd + seq!['/'] + e.0
            &&& only_dirs ==> e.2
        } by {
            if k < rest.len() {
                assert(all[k] == rest[k]);
            }
        }
    }
}

/// Where only directories are asked for, every position a local listing
/// keeps names a directory; every position is within the listing.
pub proof fn lemma_local_positions_are_dirs(names: Seq<Seq<char>>, is_dir: Seq<bool>, only_dirs: bool, show_hidden: bool)
    ensures
        forall|k: int| 0 <= k < shown_local(names, is_dir, only_dirs, show_hidden).len() ==> {
            let p = #[trigger] shown_local(names, is_dir, only_dirs, show_hidden)[k];
            &&& 0 <= p < names.len()
            &&& only_dirs ==> is_dir[p]
        },
    decreases names.len(),
{
    if names.len() > 0 && is_dir.len() == names.len() {
        lemma_local_positions_are_dirs(names.drop_last(), is_dir.drop_last(), only_dirs, show_hidden);
        let rest = shown_local(names.drop_last(), is_dir.drop_last(), only_dirs, show_hidden);
        assert forall|k: int| 0 <= k < rest.len() implies is_dir.drop_last()[rest[k]] == is_dir[rest[k]] by {
            assert(0 <= rest[k] < names.drop_last().len());
        }
    }
}

} // verus!
