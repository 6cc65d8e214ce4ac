//! Paths built while connecting and transferring: the address of a host,
//! the remote paths of transferred items, and home-relative key paths.
use vstd::prelude::*;

use crate::text::{from_chars, to_chars, trim_slashes_end};

verus! {

/// Appends the characters of `s` to `out`.
fn push_all(out: &mut Vec<char>, s: &Vec<char>)
    ensures
        final(out)@ == old(out)@ + s@,
{
    let mut i: usize = 0;
    let ghost start = out@;
    while i < s.len()
        invariant
            i <= s@.len(),
            out@ == start + s@.take(i as int),
        decreases s@.len() - i,
    {
        out.push(s[i]);
        i = i + 1;
        assert(out@ =~= start + s@.take(i as int));
    }
    assert(s@.take(i as int) =~= s@);
}

/// The address the SSH connection dials: the host and port 22.
pub fn ssh_address(host: &str) -> (r: String)
    ensures
        r@ == host@ + ":22"@,
{
    let mut out = String::from_str(host);
    out.append(":22");
    out
}

/// Where an upload puts its item: the target directory without trailing
/// slashes, a slash, the item's name.
pub open spec fn spec_upload_base(target_dir: Seq<char>, name: Seq<char>) -> Seq<char> {
    trim_slashes_end(target_dir) + seq!['/'] + name
}

/// Where an upload puts its item.
pub fn upload_base(target_dir: &str, name: &str) -> (r: String)
    ensures
        r@ == spec_upload_base(target_dir@, name@),
{
    let chars = to_chars(target_dir);
    let mut end = chars.len();
    assert(chars@.take(end as int) =~= chars@);
    while end > 0 && chars[end - 1] == '/'
        invariant
            end <= chars@.len(),
            trim_slashes_end(chars@.take(end as int)) == trim_slashes_end(chars@),
        decreases end,
    {
        assert(chars@.take(end as int).drop_last() =~= chars@.take(end - 1));
        end = end - 1;
    }
    let mut out: Vec<char> = Vec::new();
    let mut i: usize = 0;
    while i < end
        invariant
            i <= end <= chars@.len(),
            out@ == chars@.take(i as int),
        decreases end - i,
    {
        out.push(chars[i]);
        i = i + 1;
        assert(out@ =~= chars@.take(i as int));
    }
    assert(trim_slashes_end(chars@.take(end as int)) == chars@.take(end as int));
    out.push('/');
    let name_chars = to_chars(name);
    push_all(&mut out, &name_chars);
    from_chars(out.as_slice())
}

/// The path of item `name` inside remote directory `dir`, with one slash
/// between them.
pub open spec fn spec_child_path(dir: Seq<char>, name: Seq<char>) -> Seq<char> {
    if dir.len() > 0 && dir.last() == '/' {
        dir + name
    } else {
        dir + seq!['/'] + name
    }
}

/// The path of item `name` inside remote directory `dir`.
pub fn child_path(dir: &str, name: &str) -> (r: String)
    ensures
        r@ == spec_child_path(dir@, name@),
{
    let mut out = to_chars(dir);
    let ends_with_slash = out.len() > 0 && out[out.len() - 1] == '/';
    if !ends_with_slash {
        out.push('/');
    }
    let name_chars = to_chars(name);
    push_all(&mut out, &name_chars);
    from_chars(out.as_slice())
}

/// The path of item `name` inside a directory being uploaded to.
pub fn upload_child_path(dir: &str, name: &str) -> (r: String)
    ensures
        r@ == dir@ + seq!['/'] + name@,
{
    let mut out = to_chars(dir);
    out.push('/');
    let name_chars = to_chars(name);
    push_all(&mut out, &name_chars);
    from_chars(out.as_slice())
}

/// The part of a key path after a leading `~/`, which names a path in the
/// home directory.
pub open spec fn spec_home_relative(path: Seq<char>) -> Option<Seq<char>> {
    if path.len() >= 2 && path[0] == '~' && path[1] == '/' {
        Some(path.skip(2))
    } else {
        None
    }
}

/// The part of a key path after a leading `~/`, if it starts so.
pub fn home_relative(path: &str) -> (r: Option<String>)
    ensures
        match spec_home_relative(path@) {
            Some(rest) => r is Some && r.unwrap()@ == rest,
            None => r is None,
        },
{
    let chars = to_chars(path);
    if chars.len() >= 2 && chars[0] == '~' && chars[1] == '/' {
        let mut out: Vec<char> = Vec::new();
        let mut i: usize = 2;
        while i < chars.len()
            invariant
                2 <= i <= chars@.len(),
                out@ == chars@.subrange(2, i as int),
            decreases chars@.len() - i,
        {
            out.push(chars[i]);
            i = i + 1;
            assert(out@ =~= chars@.subrange(2, i as int));
        }
        assert(out@ =~= chars@.skip(2));
        Some(from_chars(out.as_slice()))
    } else {
        None
    }
}

} // verus!
