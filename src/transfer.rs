//! What a transfer does on the remote host: the directories it creates, the
//! files it writes, and the commands it runs; for either strategy.

use crate::paths::{
    below,
    is_below,
    join,
    joined,
    lemma_distinct_files_distinct_remotes,
    remote_of,
    texts,
    to_remote,
};
use crate::text::{chars_of, string_from, trim_end_slashes, trim_end_slashes_of};
use vstd::prelude::*;

verus! {

/// A command line run on the remote host.
#[derive(Debug, PartialEq, Eq)]
pub struct RemoteCommand {
    pub program: String,
    pub args: Vec<String>,
}

/// The text of a remote command.
pub struct CommandView {
    pub program: Seq<char>,
    pub args: Seq<Seq<char>>,
}

impl View for RemoteCommand {
    type V = CommandView;

    open spec fn view(&self) -> CommandView {
        CommandView { program: self.program@, args: texts(self.args@) }
    }
}

/// One remote operation of a transfer.
#[derive(Debug, PartialEq, Eq)]
pub enum TransferStep {
    /// Create the directory unless it exists already.
    MakeDir { path: String },
    /// Write the content of the local file to the remote path.
    Write { local: String, remote: String },
    /// Run a command on the remote host.
    Exec { command: RemoteCommand },
}

/// The text of a transfer step.
pub enum StepView {
    MakeDir(Seq<char>),
    Write(Seq<char>, Seq<char>),
    Exec(CommandView),
}

impl View for TransferStep {
    type V = StepView;

    open spec fn view(&self) -> StepView {
        match self {
            TransferStep::MakeDir { path } => StepView::MakeDir(path@),
            TransferStep::Write { local, remote } => StepView::Write(local@, remote@),
            TransferStep::Exec { command } => StepView::Exec(command@),
        }
    }
}

/// The texts of a list of transfer steps.
pub open spec fn step_views(v: Seq<TransferStep>) -> Seq<StepView> {
    v.map_values(|s: TransferStep| s@)
}

/// Whether position `k` of the remote path `r` ends a directory that lies
/// below the first `m` characters (the remote root): a `/` after them.
pub open spec fn is_dir_end(r: Seq<char>, m: nat, k: int) -> bool {
    m < k < r.len() && r[k] == '/'
}

/// `acc` followed by the directories of `r` that end before position `k`
/// and below its first `m` characters, shortest first, each one only when
/// `acc` does not hold it yet.
pub open spec fn add_dirs(acc: Seq<Seq<char>>, r: Seq<char>, m: nat, k: nat) -> Seq<Seq<char>>
    decreases k,
{
    if k <= m + 1 || k > r.len() {
        acc
    } else {
        let a = add_dirs(acc, r, m, (k - 1) as nat);
        let p = k - 1;
        if r[p] == '/' && !a.contains(r.subrange(0, p)) {
            a.push(r.subrange(0, p))
        } else {
            a
        }
    }
}

/// The directories that the first `n` files need below the remote root, in
/// the order of first need.
pub open spec fn needed_dirs(
    files: Seq<Seq<char>>,
    local_root: Seq<char>,
    remote_root: Seq<char>,
    n: nat,
) -> Seq<Seq<char>>
    decreases n,
{
    if n == 0 || n > files.len() {
        seq![]
    } else {
        let acc = needed_dirs(files, local_root, remote_root, (n - 1) as nat);
        match remote_of(files[n - 1], local_root, remote_root) {
            Some(r) => add_dirs(acc, r, trim_end_slashes(remote_root).len(), r.len()),
            None => acc,
        }
    }
}

/// A write for each of the first `n` files that lies below the local root,
/// in order.
pub open spec fn file_writes(
    files: Seq<Seq<char>>,
    local_root: Seq<char>,
    remote_root: Seq<char>,
    n: nat,
) -> Seq<StepView>
    decreases n,
{
    if n == 0 || n > files.len() {
        seq![]
    } else {
        let acc = file_writes(files, local_root, remote_root, (n - 1) as nat);
        match remote_of(files[n - 1], local_root, remote_root) {
            Some(r) => acc.push(StepView::Write(files[n - 1], r)),
            None => acc,
        }
    }
}

/// The direct strategy: every directory the files need, then every file.
pub open spec fn direct_plan(
    files: Seq<Seq<char>>,
    local_root: Seq<char>,
    remote_root: Seq<char>,
) -> Seq<StepView> {
    needed_dirs(files, local_root, remote_root, files.len()).map_values(
        |d: Seq<char>| StepView::MakeDir(d),
    ) + file_writes(files, local_root, remote_root, files.len())
}

/// Whether `v` holds a string with the text of `s`.
pub fn contains_text(v: &Vec<String>, s: &String) -> (r: bool)
    ensures
        r == texts(v@).contains(s@),
{
    let mut i: usize = 0;
    while i < v.len()
        invariant
            i <= v@.len(),
            forall|j: int| 0 <= j < i ==> v@[j]@ != s@,
        decreases v@.len() - i,
    {
        if v[i] == *s {
            assert(texts(v@)[i as int] == s@);
            return true;
        }
        i = i + 1;
    }
    assert forall|j: int| 0 <= j < texts(v@).len() implies texts(v@)[j] != s@ by {
        assert(texts(v@)[j] == v@[j]@);
    }
    false
}

fn add_dirs_exec(dirs: &mut Vec<String>, r: &String, m: usize)
    requires
        m < r@.len(),
    ensures
        texts(final(dirs)@) == add_dirs(texts(old(dirs)@), r@, m as nat, r@.len()),
{
    let rc = chars_of(r.as_str());
    let n = rc.len();
    let mut p: usize = m + 1;
    let ghost acc = texts(old(dirs)@);
    while p < n
        invariant
            rc@ == r@,
            n == r@.len(),
            m + 1 <= p <= n,
            texts(dirs@) == add_dirs(acc, r@, m as nat, p as nat),
        decreases n - p,
    {
        if rc[p] == '/' {
            let d = string_from(&rc, 0, p);
            if !contains_text(dirs, &d) {
                let ghost before = dirs@;
                dirs.push(d);
                assert(texts(dirs@) =~= texts(before).push(d@));
            }
        }
        p = p + 1;
    }
}

/// The remote operations of the direct strategy for `files`: first each
/// directory the files need below the remote root, shortest first, then
/// one write per file that lies below the local root. Files elsewhere are
/// left out.
pub fn plan_direct_transfer(files: &Vec<String>, local_root: &str, remote_root: &str) -> (r: Vec<
    TransferStep,
>)
    ensures
        step_views(r@) == direct_plan(texts(files@), local_root@, remote_root@),
{
    let m = trim_end_slashes_of(remote_root).unicode_len();
    let ghost fs = texts(files@);
    let mut dirs: Vec<String> = Vec::new();
    let mut writes: Vec<TransferStep> = Vec::new();
    let mut i: usize = 0;
    while i < files.len()
        invariant
            i <= files@.len(),
            fs == texts(files@),
            m == trim_end_slashes(remote_root@).len(),
            texts(dirs@) == needed_dirs(fs, local_root@, remote_root@, i as nat),
            step_views(writes@) == file_writes(fs, local_root@, remote_root@, i as nat),
        decreases files@.len() - i,
    {
        assert(fs[i as int] == files@[i as int]@);
        match to_remote(files[i].as_str(), local_root, remote_root) {
            Some(r) => {
                add_dirs_exec(&mut dirs, &r, m);
                let ghost before = writes@;
                writes.push(TransferStep::Write { local: files[i].clone(), remote: r });
                assert(step_views(writes@) =~= step_views(before).push(
                    StepView::Write(fs[i as int], r@),
                ));
            },
            None => {},
        }
        i = i + 1;
    }
    let mut out: Vec<TransferStep> = Vec::new();
    let mut j: usize = 0;
    while j < dirs.len()
        invariant
            j <= dirs@.len(),
            step_views(out@) == texts(dirs@).subrange(0, j as int).map_values(
                |d: Seq<char>| StepView::MakeDir(d),
            ),
        decreases dirs@.len() - j,
    {
        let ghost before = out@;
        let d = dirs[j].clone();
        assert(texts(dirs@)[j as int] == d@);
        out.push(TransferStep::MakeDir { path: d });
        assert(step_views(out@) =~= step_views(before).push(StepView::MakeDir(d@)));
        assert(step_views(out@) =~= texts(dirs@).subrange(0, j + 1).map_values(
            |d: Seq<char>| StepView::MakeDir(d),
        ));
        j = j + 1;
    }
    assert(texts(dirs@).subrange(0, dirs@.len() as int) == texts(dirs@));
    let ghost head = out@;
    out.append(&mut writes);
    assert(step_views(out@) =~= step_views(head) + file_writes(fs, local_root@, remote_root@, fs.len()));
    out
}

/// The local file a step writes, if it is a write.
pub open spec fn write_src(s: StepView) -> Option<Seq<char>> {
    match s {
        StepView::Write(l, _) => Some(l),
        _ => None,
    }
}

/// The remote path a step writes to, if it is a write.
pub open spec fn write_dest(s: StepView) -> Option<Seq<char>> {
    match s {
        StepView::Write(_, r) => Some(r),
        _ => None,
    }
}

proof fn lemma_add_dirs(acc: Seq<Seq<char>>, r: Seq<char>, m: nat, k: nat)
    requires
        k <= r.len(),
    ensures
        forall|x: Seq<char>| acc.contains(x) ==> #[trigger] add_dirs(acc, r, m, k).contains(x),
        forall|p: int| is_dir_end(r, m, p) && p < k ==> #[trigger] add_dirs(acc, r, m, k).contains(
            r.subrange(0, p),
        ),
    decreases k,
{
    if k > m + 1 {
        lemma_add_dirs(acc, r, m, (k - 1) as nat);
        let a = add_dirs(acc, r, m, (k - 1) as nat);
        let q = k - 1;
        let res = add_dirs(acc, r, m, k);
        assert forall|x: Seq<char>| a.contains(x) implies res.contains(x) by {
            if r[q] == '/' && !a.contains(r.subrange(0, q)) {
                let i = choose|i: int| 0 <= i < a.len() && a[i] == x;
                assert(res[i] == x);
            }
        }
        assert forall|p: int| is_dir_end(r, m, p) && p < k implies #[trigger] res.contains(
            r.subrange(0, p),
        ) by {
            if p < q {
                assert(a.contains(r.subrange(0, p)));
            } else if !a.contains(r.subrange(0, q)) {
                assert(res[a.len() as int] == r.subrange(0, q));
            }
        }
        assert forall|x: Seq<char>| acc.contains(x) implies res.contains(x) by {
            assert(a.contains(x));
        }
    }
}

proof fn lemma_needed_dirs_grow(
    files: Seq<Seq<char>>,
    lr: Seq<char>,
    rr: Seq<char>,
    a: nat,
    b: nat,
)
    requires
        a <= b <= files.len(),
    ensures
        forall|x: Seq<char>| needed_dirs(files, lr, rr, a).contains(x) ==> #[trigger] needed_dirs(
            files,
            lr,
            rr,
            b,
        ).contains(x),
    decreases b,
{
    if a < b {
        lemma_needed_dirs_grow(files, lr, rr, a, (b - 1) as nat);
        let prev = needed_dirs(files, lr, rr, (b - 1) as nat);
        match remote_of(files[b - 1], lr, rr) {
            Some(r) => {
                lemma_add_dirs(prev, r, trim_end_slashes(rr).len(), r.len());
                assert forall|x: Seq<char>| needed_dirs(files, lr, rr, a).contains(x) implies needed_dirs(
                    files,
                    lr,
                    rr,
                    b,
                ).contains(x) by {
                    assert(prev.contains(x));
                }
            },
            None => {
                assert forall|x: Seq<char>| needed_dirs(files, lr, rr, a).contains(x) implies needed_dirs(
                    files,
                    lr,
                    rr,
                    b,
                ).contains(x) by {
                    assert(prev.contains(x));
                }
            },
        }
    }
}

proof fn lemma_writes_have_dirs(files: Seq<Seq<char>>, lr: Seq<char>, rr: Seq<char>, n: nat)
    requires
        n <= files.len(),
    ensures
        forall|j: int, k: int|
            0 <= j < file_writes(files, lr, rr, n).len() && #[trigger] is_dir_end(
                write_dest(file_writes(files, lr, rr, n)[j])->0,
                trim_end_slashes(rr).len(),
                k,
            ) ==> write_dest(file_writes(files, lr, rr, n)[j]) is Some && needed_dirs(
                files,
                lr,
                rr,
                n,
            ).contains(write_dest(file_writes(files, lr, rr, n)[j])->0.subrange(0, k)),
    decreases n,
{
    let m = trim_end_slashes(rr).len();
    if n > 0 {
        lemma_writes_have_dirs(files, lr, rr, (n - 1) as nat);
        lemma_needed_dirs_grow(files, lr, rr, (n - 1) as nat, n);
        let prev = file_writes(files, lr, rr, (n - 1) as nat);
        match remote_of(files[n - 1], lr, rr) {
            Some(r) => {
                let acc = needed_dirs(files, lr, rr, (n - 1) as nat);
                lemma_add_dirs(acc, r, m, r.len());
                let w = prev.push(StepView::Write(files[n - 1], r));
                assert forall|j: int, k: int|
                    0 <= j < w.len() && #[trigger] is_dir_end(write_dest(w[j])->0, m, k) implies write_dest(
                    w[j],
                ) is Some && needed_dirs(files, lr, rr, n).contains(write_dest(w[j])->0.subrange(0, k)) by {
                    if j < prev.len() {
                        assert(w[j] == prev[j]);
                    } else {
                        assert(w[j] == StepView::Write(files[n - 1], r));
                    }
                }
            },
            None => {},
        }
    }
}

/// Under the direct strategy every directory below the remote root that a
/// written file lies in is created before the file is written.
pub proof fn lemma_dirs_before_files(files: Seq<Seq<char>>, local_root: Seq<char>, remote_root: Seq<char>)
    ensures
        forall|j: int, k: int|
            0 <= j < direct_plan(files, local_root, remote_root).len() && write_dest(
                direct_plan(files, local_root, remote_root)[j],
            ) is Some && #[trigger] is_dir_end(
                write_dest(direct_plan(files, local_root, remote_root)[j])->0,
                trim_end_slashes(remote_root).len(),
                k,
            ) ==> exists|i: int|
                0 <= i < j && direct_plan(files, local_root, remote_root)[i] == StepView::MakeDir(
                    write_dest(direct_plan(files, local_root, remote_root)[j])->0.subrange(0, k),
                ),
{
    let plan = direct_plan(files, local_root, remote_root);
    let n = files.len();
    let dirs = needed_dirs(files, local_root, remote_root, n);
    let writes = file_writes(files, local_root, remote_root, n);
    let made = dirs.map_values(|d: Seq<char>| StepView::MakeDir(d));
    let m = trim_end_slashes(remote_root).len();
    lemma_writes_have_dirs(files, local_root, remote_root, n);
    assert forall|j: int, k: int|
        0 <= j < plan.len() && write_dest(plan[j]) is Some && #[trigger] is_dir_end(
            write_dest(plan[j])->0,
            m,
            k,
        ) implies exists|i: int|
        0 <= i < j && plan[i] == StepView::MakeDir(write_dest(plan[j])->0.subrange(0, k)) by {
        if j < made.len() {
            assert(plan[j] == made[j]);
        } else {
            let w = j - made.len();
            assert(plan[j] == writes[w]);
            let d = write_dest(writes[w])->0.subrange(0, k);
            assert(dirs.contains(d));
            let i = choose|i: int| 0 <= i < dirs.len() && dirs[i] == d;
            assert(plan[i] == made[i]);
        }
    }
}

/// A command with its arguments, as text.
pub open spec fn command_view(program: Seq<char>, args: Seq<Seq<char>>) -> CommandView {
    CommandView { program, args }
}

/// The texts of a list of string slices.
pub open spec fn str_texts(v: Seq<&str>) -> Seq<Seq<char>> {
    v.map_values(|s: &str| s@)
}

/// Builds the command `program args...`.
pub fn remote_command(program: &str, args: &[&str]) -> (r: RemoteCommand)
    ensures
        r@ == command_view(program@, str_texts(args@)),
{
    let mut v: Vec<String> = Vec::new();
    let mut i: usize = 0;
    while i < args.len()
        invariant
            i <= args@.len(),
            texts(v@) == str_texts(args@).subrange(0, i as int),
        decreases args@.len() - i,
    {
        let ghost before = v@;
        v.push(String::from_str(args[i]));
        assert(texts(v@) =~= texts(before).push(args@[i as int]@));
        assert(str_texts(args@).subrange(0, i + 1) =~= str_texts(args@).subrange(0, i as int).push(
            args@[i as int]@,
        ));
        i = i + 1;
    }
    assert(str_texts(args@).subrange(0, args@.len() as int) =~= str_texts(args@));
    RemoteCommand { program: String::from_str(program), args: v }
}

/// The directory `path` and every directory above it, outermost first:
/// what creating it with its parents asks for.
pub open spec fn dir_chain(path: Seq<char>) -> Seq<StepView> {
    if path.len() == 0 {
        seq![]
    } else {
        add_dirs(seq![], path, 0, path.len()).push(path).map_values(|d: Seq<char>| StepView::MakeDir(d))
    }
}

/// Appends the creation of `path` and of every directory above it,
/// outermost first.
pub fn push_dir_chain(steps: &mut Vec<TransferStep>, path: &String)
    ensures
        step_views(final(steps)@) == step_views(old(steps)@) + dir_chain(path@),
{
    if path.unicode_len() == 0 {
        assert(step_views(old(steps)@) + Seq::<StepView>::empty() =~= step_views(old(steps)@));
        return;
    }
    let mut dirs: Vec<String> = Vec::new();
    assert(texts(dirs@) =~= Seq::<Seq<char>>::empty());
    add_dirs_exec(&mut dirs, path, 0);
    dirs.push(path.clone());
    let ghost all = texts(dirs@);
    assert(all =~= add_dirs(seq![], path@, 0, path@.len()).push(path@));
    let mut j: usize = 0;
    let ghost start = step_views(steps@);
    while j < dirs.len()
        invariant
            j <= dirs@.len(),
            all == texts(dirs@),
            step_views(steps@) == start + all.subrange(0, j as int).map_values(
                |d: Seq<char>| StepView::MakeDir(d),
            ),
        decreases dirs@.len() - j,
    {
        let ghost before = steps@;
        let d = dirs[j].clone();
        assert(all[j as int] == d@);
        steps.push(TransferStep::MakeDir { path: d });
        assert(step_views(steps@) =~= step_views(before).push(StepView::MakeDir(d@)));
        assert(all.subrange(0, j + 1).map_values(|d: Seq<char>| StepView::MakeDir(d))
            =~= all.subrange(0, j as int).map_values(|d: Seq<char>| StepView::MakeDir(d)).push(
            StepView::MakeDir(d@),
        ));
        j = j + 1;
    }
    assert(all.subrange(0, all.len() as int) =~= all);
}

/// One file of an archive: the local file and the name of its entry.
#[derive(Debug, PartialEq, Eq)]
pub struct ArchiveEntry {
    pub local: String,
    pub name: String,
}

/// The entries of an archive for the first `n` files that lie below the
/// local root, in order: each named by its path relative to the local root.
pub open spec fn archive_entries(files: Seq<Seq<char>>, local_root: Seq<char>, n: nat) -> Seq<
    (Seq<char>, Seq<char>),
>
    decreases n,
{
    if n == 0 || n > files.len() {
        seq![]
    } else {
        let acc = archive_entries(files, local_root, (n - 1) as nat);
        let l = trim_end_slashes(files[n - 1]);
        let lr = trim_end_slashes(local_root);
        if is_below(l, lr) {
            acc.push((files[n - 1], l.subrange(lr.len() as int + 1, l.len() as int)))
        } else {
            acc
        }
    }
}

/// The texts of a list of archive entries: local file and entry name.
pub open spec fn entry_views(v: Seq<ArchiveEntry>) -> Seq<(Seq<char>, Seq<char>)> {
    v.map_values(|e: ArchiveEntry| (e.local@, e.name@))
}

/// The archive strategy on the remote host: send the archive next to the
/// remote root, extract it there, and remove it.
pub open spec fn archive_steps(remote_root: Seq<char>, archive_name: Seq<char>) -> Seq<StepView> {
    let rr = trim_end_slashes(remote_root);
    let sent = join(rr, archive_name);
    seq![
        StepView::Write(archive_name, sent),
        StepView::Exec(command_view("unzip"@, seq!["-o"@, sent, "-d"@, rr])),
        StepView::Exec(command_view("rm"@, seq!["-r"@, sent])),
    ]
}

/// An archive transfer: what goes into the local archive, and the remote
/// steps that deliver it.
pub struct ArchivePlan {
    pub entries: Vec<ArchiveEntry>,
    pub steps: Vec<TransferStep>,
}

/// Plans the archive strategy for `files`: one entry per file below the
/// local root, named by its path relative to it; the local archive
/// `archive_name` is then sent next to the remote root, extracted there and
/// removed.
pub fn plan_archive_transfer(
    files: &Vec<String>,
    local_root: &str,
    remote_root: &str,
    archive_name: &str,
) -> (r: ArchivePlan)
    ensures
        entry_views(r.entries@) == archive_entries(texts(files@), local_root@, files@.len() as nat),
        step_views(r.steps@) == archive_steps(remote_root@, archive_name@),
{
    let ghost fs = texts(files@);
    let lr = trim_end_slashes_of(local_root);
    let lrc = chars_of(lr.as_str());
    let mut entries: Vec<ArchiveEntry> = Vec::new();
    let mut i: usize = 0;
    while i < files.len()
        invariant
            i <= files@.len(),
            fs == texts(files@),
            lrc@ == trim_end_slashes(local_root@),
            entry_views(entries@) == archive_entries(fs, local_root@, i as nat),
        decreases files@.len() - i,
    {
        assert(fs[i as int] == files@[i as int]@);
        let l = trim_end_slashes_of(files[i].as_str());
        let lc = chars_of(l.as_str());
        if below(&lc, &lrc) {
            let nl = lc.len();
            let nr = lrc.len();
            assert(nr < nl);
            let name = string_from(&lc, nr + 1, nl);
            let ghost before = entries@;
            entries.push(ArchiveEntry { local: files[i].clone(), name });
            assert(entry_views(entries@) =~= entry_views(before).push((fs[i as int], name@)));
        }
        i = i + 1;
    }
    let rr = trim_end_slashes_of(remote_root);
    let sent = joined(rr.as_str(), archive_name);
    let unzip_args = ["-o", sent.as_str(), "-d", rr.as_str()];
    let remove_args = ["-r", sent.as_str()];
    let unzip = remote_command("unzip", &unzip_args);
    let remove = remote_command("rm", &remove_args);
    let steps = vec![
        TransferStep::Write { local: String::from_str(archive_name), remote: sent.clone() },
        TransferStep::Exec { command: unzip },
        TransferStep::Exec { command: remove },
    ];
    proof {
        assert(str_texts(unzip_args@) =~= seq![
            "-o"@,
            sent@,
            "-d"@,
            rr@,
        ]);
        assert(str_texts(remove_args@) =~= seq!["-r"@, sent@]);
        assert(step_views(steps@) =~= archive_steps(remote_root@, archive_name@));
    }
    ArchivePlan { entries, steps }
}

/// Both strategies deliver the same files to the same places: the direct
/// strategy writes each file that the archive holds, in the same order, to
/// the remote root joined with the file's entry name, which is where
/// extracting the archive into the remote root puts it.
pub proof fn lemma_strategies_agree(files: Seq<Seq<char>>, local_root: Seq<char>, remote_root: Seq<char>, n: nat)
    requires
        n <= files.len(),
    ensures
        file_writes(files, local_root, remote_root, n).len() == archive_entries(files, local_root, n).len(),
        forall|i: int|
            0 <= i < archive_entries(files, local_root, n).len() ==> #[trigger] file_writes(
                files,
                local_root,
                remote_root,
                n,
            )[i] == StepView::Write(
                archive_entries(files, local_root, n)[i].0,
                join(trim_end_slashes(remote_root), archive_entries(files, local_root, n)[i].1),
            ),
    decreases n,
{
    if n > 0 {
        lemma_strategies_agree(files, local_root, remote_root, (n - 1) as nat);
        let l = trim_end_slashes(files[n - 1]);
        let lr = trim_end_slashes(local_root);
        let rr = trim_end_slashes(remote_root);
        if is_below(l, lr) {
            let name = l.subrange(lr.len() as int + 1, l.len() as int);
            assert(l.subrange(lr.len() as int, l.len() as int) =~= seq!['/'] + name);
            assert(rr + l.subrange(lr.len() as int, l.len() as int) =~= join(rr, name));
        }
    }
}

/// The directory a step creates; empty for other steps.
pub open spec fn made_dir(s: StepView) -> Seq<char> {
    match s {
        StepView::MakeDir(d) => d,
        _ => seq![],
    }
}

proof fn lemma_add_dirs_ordered(r: Seq<char>, k: nat)
    requires
        k <= r.len(),
    ensures
        forall|i: int|
            0 <= i < add_dirs(seq![], r, 0, k).len() ==> exists|q: int|
                is_dir_end(r, 0, q) && q < k && #[trigger] add_dirs(seq![], r, 0, k)[i]
                    == r.subrange(0, q),
        forall|i: int, j: int|
            0 <= i < j < add_dirs(seq![], r, 0, k).len() ==> (#[trigger] add_dirs(
                seq![],
                r,
                0,
                k,
            )[i]).len() < (#[trigger] add_dirs(seq![], r, 0, k)[j]).len(),
    decreases k,
{
    if k > 1 {
        lemma_add_dirs_ordered(r, (k - 1) as nat);
        let a = add_dirs(seq![], r, 0, (k - 1) as nat);
        let res = add_dirs(seq![], r, 0, k);
        let q = k - 1;
        if r[q] == '/' && !a.contains(r.subrange(0, q)) {
            assert forall|i: int| 0 <= i < res.len() implies exists|q2: int|
                is_dir_end(r, 0, q2) && q2 < k && #[trigger] res[i] == r.subrange(0, q2) by {
                if i < a.len() {
                    assert(res[i] == a[i]);
                } else {
                    assert(res[i] == r.subrange(0, q as int));
                }
            }
            assert forall|i: int, j: int| 0 <= i < j < res.len() implies (#[trigger] res[i]).len()
                < (#[trigger] res[j]).len() by {
                assert(res[i] == a[i]);
                if j < a.len() {
                    assert(res[j] == a[j]);
                } else {
                    let q2 = choose|q2: int| is_dir_end(r, 0, q2) && q2 < k - 1 && a[i] == r.subrange(0, q2);
                    assert(res[j] == r.subrange(0, q as int));
                }
            }
        }
    }
}

/// The ancestor walk that creates a directory with its parents asks for
/// the directory last and, before it, every directory above it, outermost
/// first: each step is a strict prefix of the next, ends before a `/` of
/// the path, and so is asked for once; there are no more steps than the
/// path has levels.
pub proof fn lemma_dir_chain_top_down(path: Seq<char>)
    requires
        path.len() > 0,
    ensures
        dir_chain(path).len() > 0,
        dir_chain(path).last() == StepView::MakeDir(path),
        forall|q: int|
            #![trigger is_dir_end(path, 0, q)]
            is_dir_end(path, 0, q) ==> exists|i: int|
                0 <= i < dir_chain(path).len() - 1 && dir_chain(path)[i] == StepView::MakeDir(
                    path.subrange(0, q),
                ),
        forall|i: int|
            0 <= i < dir_chain(path).len() ==> (#[trigger] dir_chain(path)[i]) is MakeDir
                && made_dir(dir_chain(path)[i]) == path.subrange(
                0,
                made_dir(dir_chain(path)[i]).len() as int,
            ) && (i < dir_chain(path).len() - 1 ==> is_dir_end(
                path,
                0,
                made_dir(dir_chain(path)[i]).len() as int,
            )),
        forall|i: int, j: int|
            0 <= i < j < dir_chain(path).len() ==> made_dir(#[trigger] dir_chain(path)[i]).is_prefix_of(
                made_dir(#[trigger] dir_chain(path)[j]),
            ) && made_dir(dir_chain(path)[i]).len() < made_dir(dir_chain(path)[j]).len(),
{
    let all = add_dirs(seq![], path, 0, path.len()).push(path);
    let chain = dir_chain(path);
    let dirs = add_dirs(seq![], path, 0, path.len());
    lemma_chain_covers(path);
    lemma_chain_ordered(path);
    lemma_add_dirs_ordered(path, path.len());
    assert forall|i: int| 0 <= i < chain.len() implies #[trigger] chain[i] == StepView::MakeDir(all[i])
        && made_dir(chain[i]) == all[i] by {}
    assert forall|q: int|
        #![trigger is_dir_end(path, 0, q)]
        is_dir_end(path, 0, q) implies exists|i: int|
        0 <= i < chain.len() - 1 && chain[i] == StepView::MakeDir(path.subrange(0, q)) by {
        let i = choose|i: int| 0 <= i < dirs.len() && dirs[i] == path.subrange(0, q);
        assert(all[i] == dirs[i]);
        assert(chain[i] == StepView::MakeDir(all[i]));
    }
    assert forall|i: int| 0 <= i < chain.len() implies (#[trigger] chain[i]) is MakeDir && made_dir(
        chain[i],
    ) == path.subrange(0, made_dir(chain[i]).len() as int) && (i < chain.len() - 1 ==> is_dir_end(
        path,
        0,
        made_dir(chain[i]).len() as int,
    )) by {
        assert(chain[i] == StepView::MakeDir(all[i]));
        if i < chain.len() - 1 {
            assert(all[i] == dirs[i]);
            let q = choose|q: int| is_dir_end(path, 0, q) && q < path.len() && dirs[i] == path.subrange(0, q);
            assert(made_dir(chain[i]).len() == q);
        } else {
            assert(all[i] == path);
        }
    }
    assert forall|i: int, j: int| 0 <= i < j < chain.len() implies made_dir(#[trigger] chain[i]).is_prefix_of(
        made_dir(#[trigger] chain[j]),
    ) && made_dir(chain[i]).len() < made_dir(chain[j]).len() by {
        assert(made_dir(chain[i]) == all[i]);
        assert(made_dir(chain[j]) == all[j]);
    }
    assert(chain.last() == StepView::MakeDir(all.last()));
}

proof fn lemma_chain_covers(path: Seq<char>)
    requires
        path.len() > 0,
    ensures
        forall|q: int|
            #![trigger is_dir_end(path, 0, q)]
            is_dir_end(path, 0, q) ==> exists|i: int|
                0 <= i < add_dirs(seq![], path, 0, path.len()).len() && add_dirs(
                    seq![],
                    path,
                    0,
                    path.len(),
                )[i] == path.subrange(0, q),
{
    let dirs = add_dirs(seq![], path, 0, path.len());
    lemma_add_dirs(seq![], path, 0, path.len());
    assert forall|q: int|
        #![trigger is_dir_end(path, 0, q)]
        is_dir_end(path, 0, q) implies exists|i: int|
        0 <= i < dirs.len() && dirs[i] == path.subrange(0, q) by {
        assert(q < path.len());
        assert(dirs.contains(path.subrange(0, q)));
    }
}

proof fn lemma_chain_ordered(path: Seq<char>)
    requires
        path.len() > 0,
    ensures
        ({
            let all = add_dirs(seq![], path, 0, path.len()).push(path);
            forall|i: int, j: int|
                0 <= i < j < all.len() ==> (#[trigger] all[i]).is_prefix_of(#[trigger] all[j])
                    && all[i].len() < all[j].len()
        }),
{
    let dirs = add_dirs(seq![], path, 0, path.len());
    let all = dirs.push(path);
    lemma_add_dirs_ordered(path, path.len());
    assert forall|i: int| 0 <= i < all.len() implies (#[trigger] all[i]).is_prefix_of(path) && (i
        < dirs.len() ==> all[i].len() < path.len()) by {
        if i < dirs.len() {
            assert(all[i] == dirs[i]);
            let q = choose|q: int| is_dir_end(path, 0, q) && q < path.len() && dirs[i] == path.subrange(0, q);
            assert(path.subrange(0, q).is_prefix_of(path));
        }
    }
    assert forall|i: int, j: int| 0 <= i < j < all.len() implies (#[trigger] all[i]).is_prefix_of(
        #[trigger] all[j],
    ) && all[i].len() < all[j].len() by {
        assert(all[i].is_prefix_of(path));
        assert(all[j].is_prefix_of(path));
        if j < dirs.len() {
            assert(all[i] == dirs[i] && all[j] == dirs[j]);
        }
        assert(all[i] =~= all[j].subrange(0, all[i].len() as int));
    }
}

proof fn lemma_writes_translate(files: Seq<Seq<char>>, lr: Seq<char>, rr: Seq<char>, n: nat)
    requires
        n <= files.len(),
    ensures
        forall|i: int|
            0 <= i < file_writes(files, lr, rr, n).len() ==> write_src(
                #[trigger] file_writes(files, lr, rr, n)[i],
            ) is Some && remote_of(write_src(file_writes(files, lr, rr, n)[i])->0, lr, rr)
                == write_dest(file_writes(files, lr, rr, n)[i]),
    decreases n,
{
    if n > 0 {
        lemma_writes_translate(files, lr, rr, (n - 1) as nat);
        let prev = file_writes(files, lr, rr, (n - 1) as nat);
        let cur = file_writes(files, lr, rr, n);
        assert forall|i: int| 0 <= i < cur.len() implies write_src(#[trigger] cur[i]) is Some
            && remote_of(write_src(cur[i])->0, lr, rr) == write_dest(cur[i]) by {
            if i < prev.len() {
                assert(cur[i] == prev[i]);
            }
        }
    }
}

/// Under the direct strategy, two writes of different files (paths that do
/// not end in `/`) go to different remote paths.
pub proof fn lemma_direct_writes_distinct(files: Seq<Seq<char>>, local_root: Seq<char>, remote_root: Seq<char>)
    ensures
        forall|i: int, j: int|
            0 <= i < direct_plan(files, local_root, remote_root).len() && 0 <= j < direct_plan(
                files,
                local_root,
                remote_root,
            ).len() && write_src(#[trigger] direct_plan(files, local_root, remote_root)[i]) is Some
                && write_src(#[trigger] direct_plan(files, local_root, remote_root)[j]) is Some
                && write_src(direct_plan(files, local_root, remote_root)[i]) != write_src(
                direct_plan(files, local_root, remote_root)[j],
            ) && (write_src(direct_plan(files, local_root, remote_root)[i])->0).last() != '/'
                && (write_src(direct_plan(files, local_root, remote_root)[j])->0).last() != '/'
                ==> write_dest(direct_plan(files, local_root, remote_root)[i]) != write_dest(
                direct_plan(files, local_root, remote_root)[j],
            ),
{
    let plan = direct_plan(files, local_root, remote_root);
    let n = files.len();
    let made = needed_dirs(files, local_root, remote_root, n).map_values(
        |d: Seq<char>| StepView::MakeDir(d),
    );
    let writes = file_writes(files, local_root, remote_root, n);
    lemma_writes_translate(files, local_root, remote_root, n);
    assert forall|i: int, j: int|
        0 <= i < plan.len() && 0 <= j < plan.len() && write_src(#[trigger] plan[i]) is Some
            && write_src(#[trigger] plan[j]) is Some && write_src(plan[i]) != write_src(plan[j])
            && (write_src(plan[i])->0).last() != '/' && (write_src(plan[j])->0).last() != '/'
        implies write_dest(plan[i]) != write_dest(plan[j]) by {
        if i < made.len() {
            assert(plan[i] == made[i]);
        }
        if j < made.len() {
            assert(plan[j] == made[j]);
        }
        assert(plan[i] == writes[i - made.len()]);
        assert(plan[j] == writes[j - made.len()]);
        let a = write_src(plan[i])->0;
        let b = write_src(plan[j])->0;
        if a.len() == 0 {
            assert(trim_end_slashes(a) == a);
        }
        if b.len() == 0 {
            assert(trim_end_slashes(b) == b);
        }
        lemma_distinct_files_distinct_remotes(a, b, local_root, remote_root);
    }
}

} // verus!
