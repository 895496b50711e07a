//! The walk over an unpacked bundle: which files go to the scanner, which
//! entries are settled without it, and what a scanner's answer means.

use vstd::prelude::*;
use crate::text::{chain, join, slash};
use crate::tracker::{Outcome, Verdict};

verus! {

/// What stands under a name in a directory.
#[derive(Debug, PartialEq, Eq)]
pub enum Node {
    /// A symbolic link, whatever it points to.
    Symlink,
    /// A regular file.
    File,
    /// A directory with its entries, in listing order.
    Directory(Vec<DirEntry>),
}

/// One entry of a directory listing.
#[derive(Debug, PartialEq, Eq)]
pub struct DirEntry {
    pub name: String,
    pub node: Node,
}

/// One step of the walk, as the contracts see it.
pub enum StepView {
    /// The entry is settled with this verdict; the scanner is not asked.
    Record { relative: Seq<char>, verdict: Verdict },
    /// The file at `file` goes to the scanner; its verdict is recorded under
    /// `relative`.
    Scan { file: Seq<char>, relative: Seq<char> },
}

/// One step of the walk.
#[derive(Debug, PartialEq, Eq)]
pub enum Step {
    /// The entry is settled with this verdict; the scanner is not asked.
    Record { relative: String, verdict: Verdict },
    /// The file at `file` goes to the scanner; its verdict is recorded under
    /// `relative`.
    Scan { file: String, relative: String },
}

impl Step {
    pub open spec fn view(&self) -> StepView {
        match *self {
            Step::Record { relative, verdict } => StepView::Record { relative: relative@, verdict },
            Step::Scan { file, relative } => StepView::Scan { file: file@, relative: relative@ },
        }
    }
}

/// The steps of a list of steps, as the contracts see them.
pub open spec fn steps_view(steps: Seq<Step>) -> Seq<StepView> {
    Seq::new(steps.len(), |i: int| steps[i]@)
}

/// The steps for one entry found in the directory `base/prefix`, where
/// `prefix` is empty or ends with a slash. A symbolic link is recorded as
/// clean and neither followed nor scanned, a regular file is scanned, a
/// directory is walked in turn.
pub open spec fn walk_entry(e: DirEntry, base: Seq<char>, prefix: Seq<char>) -> Seq<StepView>
    decreases e, 0nat,
{
    match e.node {
        Node::Symlink => seq![
            StepView::Record { relative: prefix + e.name@, verdict: Verdict::Clean },
        ],
        Node::File => seq![
            StepView::Scan { file: base + slash() + (prefix + e.name@), relative: prefix + e.name@ },
        ],
        Node::Directory(children) => walk_entries(
            children@,
            children@.len(),
            base,
            prefix + e.name@ + slash(),
        ),
    }
}

/// The steps for the first `n` entries of a listing, in listing order.
pub open spec fn walk_entries(es: Seq<DirEntry>, n: nat, base: Seq<char>, prefix: Seq<char>) -> Seq<
    StepView,
>
    decreases es, n,
{
    if n == 0 || n > es.len() {
        Seq::empty()
    } else {
        walk_entries(es, (n - 1) as nat, base, prefix) + walk_entry(es[n - 1], base, prefix)
    }
}

/// Appends to `out` the steps for the entries of one directory.
fn walk_into(entries: &Vec<DirEntry>, base: &str, prefix: &str, out: &mut Vec<Step>)
    ensures
        steps_view(final(out)@) == steps_view(old(out)@) + walk_entries(
            entries@,
            entries@.len(),
            base@,
            prefix@,
        ),
    decreases entries,
{
    let mut i: usize = 0;
    assert(steps_view(out@) =~= steps_view(old(out)@) + walk_entries(entries@, 0, base@, prefix@));
    while i < entries.len()
        invariant
            i <= entries.len(),
            steps_view(out@) == steps_view(old(out)@) + walk_entries(
                entries@,
                i as nat,
                base@,
                prefix@,
            ),
        decreases entries.len() - i,
    {
        let e = &entries[i];
        let ghost before = out@;
        let relative = chain(prefix, e.name.as_str());
        match &e.node {
            Node::Symlink => {
                out.push(Step::Record { relative, verdict: Verdict::Clean });
                assert(steps_view(out@) =~= steps_view(before) + walk_entry(*e, base@, prefix@));
            },
            Node::File => {
                let file = join(base, relative.as_str());
                out.push(Step::Scan { file, relative });
                assert(steps_view(out@) =~= steps_view(before) + walk_entry(*e, base@, prefix@));
            },
            Node::Directory(children) => {
                proof {
                    reveal_strlit("/");
                    assert("/"@ =~= slash());
                }
                let inner = chain(relative.as_str(), "/");
                walk_into(children, base, inner.as_str(), out);
            },
        }
        assert(steps_view(out@) =~= steps_view(old(out)@) + walk_entries(
            entries@,
            (i + 1) as nat,
            base@,
            prefix@,
        ));
        i = i + 1;
    }
}

/// The steps of the walk over the directory `base` with the given entries:
/// depth first, each directory in listing order.
pub fn walk(entries: &Vec<DirEntry>, base: &str) -> (steps: Vec<Step>)
    ensures
        steps_view(steps@) == walk_entries(entries@, entries@.len(), base@, Seq::empty()),
{
    let mut steps: Vec<Step> = Vec::new();
    walk_into(entries, base, "", &mut steps);
    proof {
        reveal_strlit("");
        assert(""@ =~= Seq::<char>::empty());
        assert(steps_view(Seq::<Step>::empty()) =~= Seq::<StepView>::empty());
    }
    steps
}

/// What the scanner said of one file.
#[derive(Clone, Copy, Debug, PartialEq, Eq, Structural)]
pub enum ScanOutcome {
    /// Nothing was found.
    Clean,
    /// The file is on the scanner's list of known good files.
    Whitelisted,
    /// A signature matched.
    Virus,
    /// The scanner could not scan the file.
    Failed,
}

/// The verdict that a scanner's answer stands for: clean only where the
/// scanner said clean or whitelisted. A file that could not be scanned is
/// dirty.
pub open spec fn verdict_for(outcome: ScanOutcome) -> Verdict {
    match outcome {
        ScanOutcome::Clean => Verdict::Clean,
        ScanOutcome::Whitelisted => Verdict::Clean,
        ScanOutcome::Virus => Verdict::Dirty,
        ScanOutcome::Failed => Verdict::Dirty,
    }
}

/// The verdict that a scanner's answer stands for.
pub fn verdict_of(outcome: ScanOutcome) -> (v: Verdict)
    ensures
        v == verdict_for(outcome),
{
    match outcome {
        ScanOutcome::Clean | ScanOutcome::Whitelisted => Verdict::Clean,
        ScanOutcome::Virus | ScanOutcome::Failed => Verdict::Dirty,
    }
}

/// The name of the directory that holds the payload of a bundle.
pub open spec fn data_name() -> Seq<char> {
    "data"@
}

/// The name of the file that marks a bundle.
pub open spec fn config_name() -> Seq<char> {
    "config.json"@
}

/// The entry at `i` is called `name` and is a directory where `dir` is set,
/// a regular file where it is not.
pub open spec fn is_named(es: Seq<DirEntry>, i: int, name: Seq<char>, dir: bool) -> bool {
    &&& 0 <= i < es.len()
    &&& es[i].name@ == name
    &&& if dir {
        es[i].node is Directory
    } else {
        es[i].node is File
    }
}

/// The entry at `i` is a directory called `name`.
pub open spec fn is_dir_named(es: Seq<DirEntry>, i: int, name: Seq<char>) -> bool {
    is_named(es, i, name, true)
}

/// The entry at `i` is a regular file called `name`.
pub open spec fn is_file_named(es: Seq<DirEntry>, i: int, name: Seq<char>) -> bool {
    is_named(es, i, name, false)
}

/// The listing has the layout of a bundle: a directory `data` beside a
/// regular file `config.json`.
pub open spec fn bundle_layout(es: Seq<DirEntry>) -> bool {
    &&& exists|i: int| is_dir_named(es, i, data_name())
    &&& exists|j: int| is_file_named(es, j, config_name())
}

/// The position of the first directory called `data`.
pub open spec fn data_index(es: Seq<DirEntry>) -> int {
    choose|i: int|
        is_dir_named(es, i, data_name()) && forall|j: int|
            0 <= j < i ==> !is_dir_named(es, j, data_name())
}

/// The entries of a directory node; none for any other node.
pub open spec fn children_of(node: Node) -> Seq<DirEntry> {
    match node {
        Node::Directory(children) => children@,
        _ => Seq::empty(),
    }
}

/// The listing that the walk starts from: the contents of `data` for a
/// bundle, the whole listing otherwise.
pub open spec fn scan_entries(es: Seq<DirEntry>) -> Seq<DirEntry> {
    if bundle_layout(es) {
        children_of(es[data_index(es)].node)
    } else {
        es
    }
}

/// The directory that the walk starts from, for a bundle unpacked in `dir`.
pub open spec fn scan_base(es: Seq<DirEntry>, dir: Seq<char>) -> Seq<char> {
    if bundle_layout(es) {
        dir + slash() + data_name()
    } else {
        dir
    }
}

/// What unpacking a submitted bundle gave.
#[derive(Debug, PartialEq, Eq)]
pub enum Unpacked {
    /// The bundle could not be unpacked.
    Failed,
    /// The listing of the directory that the bundle was unpacked into.
    Tree(Vec<DirEntry>),
}

/// What is to be done for a job: the steps to take, and the outcome to set
/// once they are taken.
#[derive(Debug, PartialEq, Eq)]
pub struct Plan {
    pub outcome: Outcome,
    pub steps: Vec<Step>,
}

/// The outcome that a bundle's analysis ends with.
pub open spec fn plan_outcome(bundle: Unpacked) -> Outcome {
    match bundle {
        Unpacked::Failed => Outcome::Error,
        Unpacked::Tree(_) => Outcome::Scanned,
    }
}

/// The steps of a bundle's analysis, for a bundle unpacked in `dir`.
pub open spec fn plan_steps(bundle: Unpacked, dir: Seq<char>) -> Seq<StepView> {
    match bundle {
        Unpacked::Failed => Seq::empty(),
        Unpacked::Tree(es) => walk_entries(
            scan_entries(es@),
            scan_entries(es@).len(),
            scan_base(es@, dir),
            Seq::empty(),
        ),
    }
}

/// The position of the first entry that is called `name` and is a directory
/// where `dir` is set, a regular file where it is not.
fn find_named(entries: &Vec<DirEntry>, name: &String, dir: bool) -> (r: Option<usize>)
    ensures
        match r {
            Some(i) => is_named(entries@, i as int, name@, dir) && forall|j: int|
                0 <= j < i ==> !is_named(entries@, j, name@, dir),
            None => forall|j: int| !is_named(entries@, j, name@, dir),
        },
{
    let mut i: usize = 0;
    while i < entries.len()
        invariant
            i <= entries.len(),
            forall|j: int| 0 <= j < i ==> !is_named(entries@, j, name@, dir),
        decreases entries.len() - i,
    {
        let e = &entries[i];
        let kind_matches = match &e.node {
            Node::Directory(_) => dir,
            Node::File => !dir,
            Node::Symlink => false,
        };
        if kind_matches && e.name == *name {
            return Some(i);
        }
        i = i + 1;
    }
    None
}

/// Plans the analysis of a bundle that was unpacked in `dir`. A bundle that
/// could not be unpacked ends in error without any step. Otherwise the walk
/// starts in `data` where the listing has the layout of a bundle, and in `dir`
/// itself where it has not, and the analysis ends as scanned.
pub fn plan(bundle: &Unpacked, dir: &str) -> (p: Plan)
    ensures
        p.outcome == plan_outcome(*bundle),
        steps_view(p.steps@) == plan_steps(*bundle, dir@),
{
    match bundle {
        Unpacked::Failed => {
            let steps: Vec<Step> = Vec::new();
            assert(steps_view(steps@) =~= Seq::<StepView>::empty());
            Plan { outcome: Outcome::Error, steps }
        },
        Unpacked::Tree(entries) => {
            let data = "data".to_owned();
            let config = "config.json".to_owned();
            let steps = match (find_named(entries, &data, true), find_named(entries, &config, false)) {
                (Some(i), Some(j)) => {
                    assert(is_dir_named(entries@, i as int, data_name()));
                    assert(is_file_named(entries@, j as int, config_name()));
                    assert(data_index(entries@) == i);
                    let base = join(dir, data.as_str());
                    match &entries[i].node {
                        Node::Directory(children) => walk(children, base.as_str()),
                        _ => Vec::new(),
                    }
                },
                _ => {
                    assert(!bundle_layout(entries@));
                    walk(entries, dir)
                },
            };
            Plan { outcome: Outcome::Scanned, steps }
        },
    }
}

/// The number of steps that ask the scanner.
pub open spec fn count_scans(steps: Seq<StepView>) -> nat
    decreases steps.len(),
{
    if steps.len() == 0 {
        0
    } else {
        count_scans(steps.drop_last()) + if steps.last() is Scan {
            1nat
        } else {
            0nat
        }
    }
}

/// The number of steps that settle an entry without the scanner.
pub open spec fn count_records(steps: Seq<StepView>) -> nat {
    (steps.len() - count_scans(steps)) as nat
}

/// The number of regular files at or below an entry.
pub open spec fn files_at(e: DirEntry) -> nat
    decreases e, 0nat,
{
    match e.node {
        Node::Symlink => 0,
        Node::File => 1,
        Node::Directory(children) => files_in(children@, children@.len()),
    }
}

/// The number of regular files at or below the first `n` entries of a listing.
pub open spec fn files_in(es: Seq<DirEntry>, n: nat) -> nat
    decreases es, n,
{
    if n == 0 || n > es.len() {
        0
    } else {
        files_in(es, (n - 1) as nat) + files_at(es[n - 1])
    }
}

/// The number of symbolic links at or below an entry. A link counts as
/// itself; what it points to is not looked at.
pub open spec fn links_at(e: DirEntry) -> nat
    decreases e, 0nat,
{
    match e.node {
        Node::Symlink => 1,
        Node::File => 0,
        Node::Directory(children) => links_in(children@, children@.len()),
    }
}

/// The number of symbolic links at or below the first `n` entries of a listing.
pub open spec fn links_in(es: Seq<DirEntry>, n: nat) -> nat
    decreases es, n,
{
    if n == 0 || n > es.len() {
        0
    } else {
        links_in(es, (n - 1) as nat) + links_at(es[n - 1])
    }
}

/// A step that settles an entry says clean, and a step that asks the scanner
/// names the file as `base`, a slash, and the relative path.
pub open spec fn step_shape(s: StepView, base: Seq<char>) -> bool {
    match s {
        StepView::Record { relative, verdict } => verdict == Verdict::Clean,
        StepView::Scan { file, relative } => file == base + slash() + relative,
    }
}

proof fn lemma_count_scans_add(a: Seq<StepView>, b: Seq<StepView>)
    ensures
        count_scans(a + b) == count_scans(a) + count_scans(b),
        count_scans(b) <= b.len(),
    decreases b.len(),
{
    if b.len() == 0 {
        assert(a + b =~= a);
    } else {
        assert((a + b).drop_last() =~= a + b.drop_last());
        assert((a + b).last() == b.last());
        lemma_count_scans_add(a, b.drop_last());
    }
}

/// A symbolic link gives one step: it is recorded as clean under its relative
/// path, and the scanner is not asked.
pub proof fn lemma_symlink_never_scanned(e: DirEntry, base: Seq<char>, prefix: Seq<char>)
    requires
        e.node is Symlink,
    ensures
        walk_entry(e, base, prefix) == seq![
            StepView::Record { relative: prefix + e.name@, verdict: Verdict::Clean },
        ],
        count_scans(walk_entry(e, base, prefix)) == 0,
{
    let w = walk_entry(e, base, prefix);
    assert(w.drop_last() =~= Seq::<StepView>::empty());
    assert(count_scans(w.drop_last()) == 0);
}

/// The walk below one entry asks the scanner once for each regular file and
/// settles each symbolic link without it, as clean.
pub proof fn lemma_walk_entry_covers(e: DirEntry, base: Seq<char>, prefix: Seq<char>)
    ensures
        count_scans(walk_entry(e, base, prefix)) == files_at(e),
        count_records(walk_entry(e, base, prefix)) == links_at(e),
        forall|k: int|
            0 <= k < walk_entry(e, base, prefix).len() ==> step_shape(
                #[trigger] walk_entry(e, base, prefix)[k],
                base,
            ),
    decreases e, 0nat,
{
    let w = walk_entry(e, base, prefix);
    match e.node {
        Node::Symlink => {
            lemma_symlink_never_scanned(e, base, prefix);
        },
        Node::File => {
            assert(w.drop_last() =~= Seq::<StepView>::empty());
            assert(count_scans(w.drop_last()) == 0);
        },
        Node::Directory(children) => {
            lemma_walk_covers(children@, children@.len(), base, prefix + e.name@ + slash());
        },
    }
}

/// The walk over a listing asks the scanner once for each regular file in the
/// tree and settles each symbolic link without it, as clean.
pub proof fn lemma_walk_covers(es: Seq<DirEntry>, n: nat, base: Seq<char>, prefix: Seq<char>)
    ensures
        count_scans(walk_entries(es, n, base, prefix)) == files_in(es, n),
        count_records(walk_entries(es, n, base, prefix)) == links_in(es, n),
        forall|k: int|
            0 <= k < walk_entries(es, n, base, prefix).len() ==> step_shape(
                #[trigger] walk_entries(es, n, base, prefix)[k],
                base,
            ),
    decreases es, n,
{
    if n == 0 || n > es.len() {
    } else {
        let head = walk_entries(es, (n - 1) as nat, base, prefix);
        let tail = walk_entry(es[n - 1], base, prefix);
        lemma_walk_covers(es, (n - 1) as nat, base, prefix);
        lemma_walk_entry_covers(es[n - 1], base, prefix);
        lemma_count_scans_add(head, tail);
        lemma_count_scans_add(tail, head);
        assert forall|k: int| 0 <= k < (head + tail).len() implies step_shape(
            #[trigger] (head + tail)[k],
            base,
        ) by {
            if k < head.len() {
                assert((head + tail)[k] == head[k]);
            } else {
                assert((head + tail)[k] == tail[k - head.len()]);
            }
        }
    }
}

/// A listing with a directory `data` beside a regular file `config.json` is
/// walked from `data` alone; any other listing is walked whole.
pub proof fn lemma_scan_root(es: Vec<DirEntry>, dir: Seq<char>)
    ensures
        bundle_layout(es@) ==> {
            &&& is_dir_named(es@, data_index(es@), data_name())
            &&& plan_steps(Unpacked::Tree(es), dir) == walk_entries(
                children_of(es@[data_index(es@)].node),
                children_of(es@[data_index(es@)].node).len(),
                dir + slash() + data_name(),
                Seq::empty(),
            )
        },
        !bundle_layout(es@) ==> plan_steps(Unpacked::Tree(es), dir) == walk_entries(
            es@,
            es@.len(),
            dir,
            Seq::empty(),
        ),
        plan_outcome(Unpacked::Tree(es)) == Outcome::Scanned,
{
    if bundle_layout(es@) {
        lemma_first_data_dir(es@, choose|i: int| is_dir_named(es@, i, data_name()));
    }
}

proof fn lemma_first_data_dir(es: Seq<DirEntry>, i: int)
    requires
        is_dir_named(es, i, data_name()),
    ensures
        is_dir_named(es, data_index(es), data_name()),
    decreases i,
{
    if exists|j: int| 0 <= j < i && is_dir_named(es, j, data_name()) {
        let j = choose|j: int| 0 <= j < i && is_dir_named(es, j, data_name());
        lemma_first_data_dir(es, j);
    } else {
        assert(is_dir_named(es, i, data_name()) && forall|j: int|
            0 <= j < i ==> !is_dir_named(es, j, data_name()));
    }
}

/// A bundle that could not be unpacked ends in error, and nothing is walked.
pub proof fn lemma_unpack_failure(dir: Seq<char>)
    ensures
        plan_outcome(Unpacked::Failed) == Outcome::Error,
        plan_steps(Unpacked::Failed, dir) == Seq::<StepView>::empty(),
{
}

} // verus!
