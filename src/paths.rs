//! Where a local file goes on the remote host, and which local files an
//! operation moves.

use crate::text::{chars_of, occurs_at, push_char, starts_with, string_from, trim_end_slashes, trim_end_slashes_of};
use vstd::prelude::*;

verus! {

/// Whether `path` lies strictly below the directory `root`: `root` is a
/// prefix of it and is followed by a `/`.
pub open spec fn is_below(path: Seq<char>, root: Seq<char>) -> bool {
    &&& root.len() < path.len()
    &&& root.is_prefix_of(path)
    &&& path[root.len() as int] == '/'
}

/// The remote counterpart of the local path `local`: with trailing slashes
/// taken off all three paths, the local root is stripped from the local path
/// and what remains is put after the remote root. There is none for a path
/// that does not lie below the local root.
pub open spec fn remote_of(
    local: Seq<char>,
    local_root: Seq<char>,
    remote_root: Seq<char>,
) -> Option<Seq<char>> {
    let l = trim_end_slashes(local);
    let lr = trim_end_slashes(local_root);
    if is_below(l, lr) {
        Some(trim_end_slashes(remote_root) + l.subrange(lr.len() as int, l.len() as int))
    } else {
        None
    }
}

/// Whether `p` lies below the directory `root` (as `is_below` states).
pub fn below(p: &Vec<char>, root: &Vec<char>) -> (r: bool)
    ensures
        r == is_below(p@, root@),
{
    if root.len() >= p.len() {
        return false;
    }
    let head = occurs_at(p, 0, root);
    assert(p@.subrange(0, p@.len() as int) == p@);
    head && p[root.len()] == '/'
}

/// Translates a local path to its remote counterpart, as `remote_of` states.
pub fn to_remote(local: &str, local_root: &str, remote_root: &str) -> (r: Option<String>)
    ensures
        r matches Some(s) ==> remote_of(local@, local_root@, remote_root@) == Some(s@),
        r is None ==> remote_of(local@, local_root@, remote_root@) is None,
{
    let l = trim_end_slashes_of(local);
    let lr = trim_end_slashes_of(local_root);
    let l = chars_of(l.as_str());
    let lr = chars_of(lr.as_str());
    if !below(&l, &lr) {
        return None;
    }
    let mut out = trim_end_slashes_of(remote_root);
    let rest = string_from(&l, lr.len(), l.len());
    out.append(rest.as_str());
    Some(out)
}

/// Local paths that lie in different places, trailing slashes aside, have
/// different remote counterparts.
pub proof fn lemma_to_remote_injective(
    a: Seq<char>,
    b: Seq<char>,
    local_root: Seq<char>,
    remote_root: Seq<char>,
)
    requires
        remote_of(a, local_root, remote_root) is Some,
        remote_of(b, local_root, remote_root) is Some,
        trim_end_slashes(a) != trim_end_slashes(b),
    ensures
        remote_of(a, local_root, remote_root) != remote_of(b, local_root, remote_root),
{
    let la = trim_end_slashes(a);
    let lb = trim_end_slashes(b);
    let lr = trim_end_slashes(local_root);
    let rr = trim_end_slashes(remote_root);
    let ra = la.subrange(lr.len() as int, la.len() as int);
    let rb = lb.subrange(lr.len() as int, lb.len() as int);
    if remote_of(a, local_root, remote_root) == remote_of(b, local_root, remote_root) {
        assert((rr + ra).subrange(rr.len() as int, (rr + ra).len() as int) == ra);
        assert((rr + rb).subrange(rr.len() as int, (rr + rb).len() as int) == rb);
        assert(ra == rb);
        assert(la =~= la.subrange(0, lr.len() as int) + ra);
        assert(lb =~= lb.subrange(0, lr.len() as int) + rb);
    }
}

/// Distinct file paths (paths that do not end in `/`) below the local root
/// have distinct remote counterparts.
pub proof fn lemma_distinct_files_distinct_remotes(
    a: Seq<char>,
    b: Seq<char>,
    local_root: Seq<char>,
    remote_root: Seq<char>,
)
    requires
        remote_of(a, local_root, remote_root) is Some,
        remote_of(b, local_root, remote_root) is Some,
        a != b,
        a.len() == 0 || a.last() != '/',
        b.len() == 0 || b.last() != '/',
    ensures
        remote_of(a, local_root, remote_root) != remote_of(b, local_root, remote_root),
{
    assert(trim_end_slashes(a) == a);
    assert(trim_end_slashes(b) == b);
    lemma_to_remote_injective(a, b, local_root, remote_root);
}

/// `dir/name`.
pub open spec fn join(dir: Seq<char>, name: Seq<char>) -> Seq<char> {
    dir + seq!['/'] + name
}

/// `dir/name`, as `join` states.
pub fn joined(dir: &str, name: &str) -> (r: String)
    ensures
        r@ == join(dir@, name@),
{
    let mut r = String::from_str(dir);
    push_char(&mut r, '/');
    r.append(name);
    r
}

/// The texts of a list of strings.
pub open spec fn texts(v: Seq<String>) -> Seq<Seq<char>> {
    v.map_values(|s: String| s@)
}

/// Whether `path` belongs to the part of the tree that an operation is
/// limited to: all of it when no target is given, else what starts with
/// `src_root/target`.
pub open spec fn in_target(path: Seq<char>, src_root: Seq<char>, target: Seq<char>) -> bool {
    target.len() == 0 || join(src_root, target).is_prefix_of(path)
}

/// The paths, in order, that lie in the target part of the tree.
pub open spec fn target_selection(
    paths: Seq<Seq<char>>,
    src_root: Seq<char>,
    target: Seq<char>,
) -> Seq<Seq<char>>
    decreases paths.len(),
{
    if paths.len() == 0 {
        seq![]
    } else {
        target_selection(paths.drop_last(), src_root, target) + (if in_target(
            paths.last(),
            src_root,
            target,
        ) {
            seq![paths.last()]
        } else {
            seq![]
        })
    }
}

/// Keeps, in order, the files of a full-tree scan of `src_root` that lie in
/// its `target_path` part (all of them when `target_path` is empty).
pub fn select_target(paths: &Vec<String>, src_root: &str, target_path: &str) -> (r: Vec<String>)
    ensures
        texts(r@) == target_selection(texts(paths@), src_root@, target_path@),
{
    let prefix = joined(src_root, target_path);
    let all = target_path.unicode_len() == 0;
    let mut r: Vec<String> = Vec::new();
    let mut i: usize = 0;
    while i < paths.len()
        invariant
            i <= paths@.len(),
            all == (target_path@.len() == 0),
            prefix@ == join(src_root@, target_path@),
            texts(r@) == target_selection(texts(paths@.subrange(0, i as int)), src_root@, target_path@),
        decreases paths@.len() - i,
    {
        let ghost before = r@;
        let keep = all || starts_with(paths[i].as_str(), prefix.as_str());
        if keep {
            r.push(paths[i].clone());
        }
        proof {
            let pre = texts(paths@.subrange(0, i + 1));
            assert(pre.drop_last() == texts(paths@.subrange(0, i as int)));
            assert(pre.last() == paths@[i as int]@);
            if keep {
                assert(texts(r@) == texts(before) + seq![paths@[i as int]@]);
            } else {
                assert(texts(r@) == texts(before) + Seq::<Seq<char>>::empty());
            }
        }
        i = i + 1;
    }
    assert(paths@.subrange(0, paths@.len() as int) == paths@);
    r
}

/// The changed paths, relative to the repository root, that lie under
/// `relative` (the source root relative to the repository root), each made
/// absolute under the repository root `repo`; in order.
pub open spec fn change_selection(
    changed: Seq<Seq<char>>,
    repo: Seq<char>,
    relative: Seq<char>,
) -> Seq<Seq<char>>
    decreases changed.len(),
{
    if changed.len() == 0 {
        seq![]
    } else {
        change_selection(changed.drop_last(), repo, relative) + (if relative.is_prefix_of(
            changed.last(),
        ) {
            seq![join(repo, changed.last())]
        } else {
            seq![]
        })
    }
}

/// The files to upload for a change set reported by version control: each
/// changed path under `relative`, made absolute under the repository root.
pub fn change_set_paths(repo: &str, relative: &str, changed: &Vec<String>) -> (r: Vec<String>)
    ensures
        texts(r@) == change_selection(texts(changed@), repo@, relative@),
{
    let mut r: Vec<String> = Vec::new();
    let mut i: usize = 0;
    while i < changed.len()
        invariant
            i <= changed@.len(),
            texts(r@) == change_selection(texts(changed@.subrange(0, i as int)), repo@, relative@),
        decreases changed@.len() - i,
    {
        let ghost before = r@;
        let keep = starts_with(changed[i].as_str(), relative);
        if keep {
            r.push(joined(repo, changed[i].as_str()));
        }
        proof {
            let pre = texts(changed@.subrange(0, i + 1));
            assert(pre.drop_last() == texts(changed@.subrange(0, i as int)));
            assert(pre.last() == changed@[i as int]@);
            if keep {
                assert(texts(r@) == texts(before) + seq![join(repo@, changed@[i as int]@)]);
            } else {
                assert(texts(r@) == texts(before) + Seq::<Seq<char>>::empty());
            }
        }
        i = i + 1;
    }
    assert(changed@.subrange(0, changed@.len() as int) == changed@);
    r
}

/// A line without the carriage return of a `\r\n` ending.
pub open spec fn strip_cr(line: Seq<char>) -> Seq<char> {
    if line.len() > 0 && line.last() == '\r' {
        line.drop_last()
    } else {
        line
    }
}

/// `done` with `line` added at its end, unless `line` is empty.
pub open spec fn add_line(done: Seq<Seq<char>>, line: Seq<char>) -> Seq<Seq<char>> {
    if line.len() == 0 {
        done
    } else {
        done.push(line)
    }
}

/// After reading the first `k` characters of `text`: the non-empty lines
/// completed so far, and the line still open.
pub open spec fn scan_lines(text: Seq<char>, k: nat) -> (Seq<Seq<char>>, Seq<char>)
    decreases k,
{
    if k == 0 || k > text.len() {
        (seq![], seq![])
    } else {
        let (done, open) = scan_lines(text, (k - 1) as nat);
        if text[k - 1] == '\n' {
            (add_line(done, strip_cr(open)), seq![])
        } else {
            (done, open.push(text[k - 1]))
        }
    }
}

/// The non-empty lines of `text`, in order. Lines end at `\n` or `\r\n`;
/// the last one needs no ending.
pub open spec fn nonempty_lines(text: Seq<char>) -> Seq<Seq<char>> {
    let (done, open) = scan_lines(text, text.len());
    add_line(done, open)
}

/// The files a patch list names: each non-empty line is a path relative to
/// the source root.
pub open spec fn patch_selection(src_root: Seq<char>, text: Seq<char>) -> Seq<Seq<char>> {
    nonempty_lines(text).map_values(|l: Seq<char>| join(src_root, l))
}

fn add_path(out: &mut Vec<String>, src_root: &str, line: &Vec<char>)
    ensures
        texts(final(out)@) == texts(old(out)@) + add_line(seq![], line@).map_values(
            |l: Seq<char>| join(src_root@, l),
        ),
{
    if line.len() > 0 {
        let l = string_from(line, 0, line.len());
        assert(line@.subrange(0, line@.len() as int) == line@);
        out.push(joined(src_root, l.as_str()));
        assert(texts(final(out)@) =~= texts(old(out)@) + seq![join(src_root@, line@)]);
        assert(add_line(seq![], line@) == seq![line@]);
    } else {
        assert(texts(final(out)@) =~= texts(old(out)@) + Seq::<Seq<char>>::empty());
    }
}

proof fn lemma_add_line_map(done: Seq<Seq<char>>, line: Seq<char>, root: Seq<char>)
    ensures
        add_line(done, line).map_values(|l: Seq<char>| join(root, l)) == done.map_values(
            |l: Seq<char>| join(root, l),
        ) + add_line(seq![], line).map_values(|l: Seq<char>| join(root, l)),
{
    if line.len() == 0 {
        assert(add_line(seq![], line).map_values(|l: Seq<char>| join(root, l)) =~= seq![]);
        assert(done.map_values(|l: Seq<char>| join(root, l)) + Seq::<Seq<char>>::empty()
            =~= done.map_values(|l: Seq<char>| join(root, l)));
    } else {
        assert(add_line(done, line).map_values(|l: Seq<char>| join(root, l)) =~= done.map_values(
            |l: Seq<char>| join(root, l),
        ) + add_line(seq![], line).map_values(|l: Seq<char>| join(root, l)));
    }
}

/// The files named by the patch list `text`, each non-empty line taken as a
/// path relative to `src_root`; in the order listed.
pub fn patch_paths(src_root: &str, text: &str) -> (r: Vec<String>)
    ensures
        texts(r@) == patch_selection(src_root@, text@),
{
    let t = chars_of(text);
    let n = t.len();
    let mut out: Vec<String> = Vec::new();
    let mut open: Vec<char> = Vec::new();
    let mut i: usize = 0;
    while i < n
        invariant
            n == t@.len() == text@.len(),
            t@ == text@,
            i <= n,
            texts(out@) == scan_lines(text@, i as nat).0.map_values(|l: Seq<char>| join(src_root@, l)),
            open@ == scan_lines(text@, i as nat).1,
        decreases n - i,
    {
        let c = t[i];
        let ghost prev = scan_lines(text@, i as nat);
        if c == '\n' {
            if open.len() > 0 && open[open.len() - 1] == '\r' {
                open.pop();
            }
            assert(open@ == strip_cr(prev.1));
            proof {
                lemma_add_line_map(prev.0, open@, src_root@);
            }
            add_path(&mut out, src_root, &open);
            open = Vec::new();
        } else {
            open.push(c);
        }
        i = i + 1;
    }
    proof {
        lemma_add_line_map(scan_lines(text@, n as nat).0, open@, src_root@);
    }
    add_path(&mut out, src_root, &open);
    out
}

} // verus!
