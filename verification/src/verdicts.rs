//! What a finished analysis reports: in a tree as a file system gives it, no
//! two steps of the walk speak of the same path, so every file and every link
//! has one verdict of its own.

use vstd::prelude::*;
use crate::scan::{DirEntry, Node, ScanOutcome, StepView, verdict_for, walk_entries, walk_entry};
use crate::text::slash;
use crate::tracker::{JobState, Verdict, recorded};

verus! {

/// A name that can stand in a directory: not empty, and without a slash.
pub open spec fn valid_name(name: Seq<char>) -> bool {
    name.len() > 0 && forall|i: int| 0 <= i < name.len() ==> name[i] != '/'
}

/// An entry as a file system gives it: its name is valid, and so are the
/// entries below it.
pub open spec fn entry_ok(e: DirEntry) -> bool
    decreases e, 0nat,
{
    &&& valid_name(e.name@)
    &&& match e.node {
        Node::Directory(children) => entries_ok(children@, children@.len()),
        _ => true,
    }
}

/// The first `n` entries of a listing are as a file system gives them: each
/// is, and no two share a name.
pub open spec fn entries_ok(es: Seq<DirEntry>, n: nat) -> bool
    decreases es, n,
{
    if n == 0 || n > es.len() {
        true
    } else {
        &&& entries_ok(es, (n - 1) as nat)
        &&& entry_ok(es[n - 1])
        &&& forall|j: int| 0 <= j < n - 1 ==> (#[trigger] es[j]).name@ != es[n - 1].name@
    }
}

/// The path that a step speaks of, relative to the scan root.
pub open spec fn step_path(s: StepView) -> Seq<char> {
    match s {
        StepView::Record { relative, verdict } => relative,
        StepView::Scan { file, relative } => relative,
    }
}

/// The path `r` lies at or below the entry `name` of the directory `prefix`:
/// it starts with `prefix` and `name`, and ends there or goes on with a slash.
pub open spec fn headed(r: Seq<char>, prefix: Seq<char>, name: Seq<char>) -> bool {
    let m = (prefix.len() + name.len()) as int;
    &&& m <= r.len()
    &&& r.subrange(0, m) == prefix + name
    &&& (r.len() == m || r[m] == '/')
}

/// The path `r` lies at or below one of the first `n` entries of a listing.
pub open spec fn headed_by_one(r: Seq<char>, prefix: Seq<char>, es: Seq<DirEntry>, n: nat) -> bool {
    exists|i: int| 0 <= i < n && i < es.len() && headed(r, prefix, (#[trigger] es[i]).name@)
}

/// A path lies at or below one entry of a directory only: the name up to the
/// first slash tells which.
proof fn lemma_headed_unique(r: Seq<char>, prefix: Seq<char>, a: Seq<char>, b: Seq<char>)
    requires
        headed(r, prefix, a),
        headed(r, prefix, b),
        valid_name(a),
        valid_name(b),
    ensures
        a == b,
{
    let p = prefix.len() as int;
    let la = a.len() as int;
    let lb = b.len() as int;
    let ra = r.subrange(0, p + la);
    let rb = r.subrange(0, p + lb);
    if la < lb {
        assert(r[p + la] == rb[p + la]);
        assert(rb[p + la] == b[la]);
    } else if lb < la {
        assert(r[p + lb] == ra[p + lb]);
        assert(ra[p + lb] == a[lb]);
    } else {
        assert forall|i: int| 0 <= i < a.len() implies a[i] == b[i] by {
            assert(ra[p + i] == a[i]);
            assert(rb[p + i] == b[i]);
        }
        assert(a =~= b);
    }
}

/// A path below an entry of a directory that lies below `name` lies below
/// `name`.
proof fn lemma_headed_below(r: Seq<char>, prefix: Seq<char>, name: Seq<char>, child: Seq<char>)
    requires
        headed(r, prefix + name + slash(), child),
    ensures
        headed(r, prefix, name),
{
    let inner = prefix + name + slash();
    let m = (prefix.len() + name.len()) as int;
    let whole = r.subrange(0, (inner.len() + child.len()) as int);
    assert(whole == inner + child);
    assert forall|i: int| 0 <= i < m implies r.subrange(0, m)[i] == (prefix + name)[i] by {
        assert(r[i] == whole[i]);
        assert(whole[i] == inner[i]);
    }
    assert(r.subrange(0, m) =~= prefix + name);
    assert(r[m] == whole[m]);
    assert(whole[m] == inner[m]);
}

/// Every step below an entry speaks of a path at or below that entry.
proof fn lemma_entry_headed(e: DirEntry, base: Seq<char>, prefix: Seq<char>)
    ensures
        forall|k: int|
            0 <= k < walk_entry(e, base, prefix).len() ==> headed(
                step_path(#[trigger] walk_entry(e, base, prefix)[k]),
                prefix,
                e.name@,
            ),
    decreases e, 0nat,
{
    let w = walk_entry(e, base, prefix);
    match e.node {
        Node::Directory(children) => {
            let inner = prefix + e.name@ + slash();
            lemma_entries_headed(children@, children@.len(), base, inner);
            assert forall|k: int| 0 <= k < w.len() implies headed(
                step_path(#[trigger] w[k]),
                prefix,
                e.name@,
            ) by {
                let below = walk_entries(children@, children@.len(), base, inner);
                let r = step_path(below[k]);
                assert(headed_by_one(r, inner, children@, children@.len()));
                let i = choose|i: int|
                    0 <= i < children@.len() && headed(r, inner, (#[trigger] children@[i]).name@);
                lemma_headed_below(r, prefix, e.name@, children@[i].name@);
            }
        },
        _ => {
            assert forall|k: int| 0 <= k < w.len() implies headed(
                step_path(#[trigger] w[k]),
                prefix,
                e.name@,
            ) by {
                let r = prefix + e.name@;
                assert(step_path(w[k]) == r);
                assert(r.subrange(0, r.len() as int) =~= r);
            }
        },
    }
}

/// Every step of the walk over a listing speaks of a path at or below one of
/// its entries.
proof fn lemma_entries_headed(es: Seq<DirEntry>, n: nat, base: Seq<char>, prefix: Seq<char>)
    ensures
        forall|k: int|
            0 <= k < walk_entries(es, n, base, prefix).len() ==> headed_by_one(
                step_path(#[trigger] walk_entries(es, n, base, prefix)[k]),
                prefix,
                es,
                n,
            ),
    decreases es, n,
{
    if n == 0 || n > es.len() {
    } else {
        let head = walk_entries(es, (n - 1) as nat, base, prefix);
        let tail = walk_entry(es[n - 1], base, prefix);
        lemma_entries_headed(es, (n - 1) as nat, base, prefix);
        lemma_entry_headed(es[n - 1], base, prefix);
        assert forall|k: int| 0 <= k < (head + tail).len() implies headed_by_one(
            step_path(#[trigger] (head + tail)[k]),
            prefix,
            es,
            n,
        ) by {
            if k < head.len() {
                let r = step_path(head[k]);
                assert(headed_by_one(r, prefix, es, (n - 1) as nat));
                let i = choose|i: int|
                    0 <= i < n - 1 && i < es.len() && headed(r, prefix, (#[trigger] es[i]).name@);
                assert(headed(r, prefix, es[i].name@));
            } else {
                let r = step_path(tail[k - head.len()]);
                assert(headed(r, prefix, es[n - 1].name@));
            }
        }
    }
}

/// No two steps of a list speak of the same path.
pub open spec fn distinct_paths(steps: Seq<StepView>) -> bool {
    forall|a: int, b: int|
        0 <= a < b < steps.len() ==> step_path(#[trigger] steps[a]) != step_path(
            #[trigger] steps[b],
        )
}

/// Below an entry as a file system gives it, no two steps speak of the same
/// path.
proof fn lemma_entry_distinct(e: DirEntry, base: Seq<char>, prefix: Seq<char>)
    requires
        entry_ok(e),
    ensures
        distinct_paths(walk_entry(e, base, prefix)),
    decreases e, 0nat,
{
    match e.node {
        Node::Directory(children) => {
            lemma_walk_paths_distinct(
                children@,
                children@.len(),
                base,
                prefix + e.name@ + slash(),
            );
        },
        _ => {},
    }
}

/// In a tree as a file system gives it, no two steps of the walk speak of the
/// same path.
pub proof fn lemma_walk_paths_distinct(
    es: Seq<DirEntry>,
    n: nat,
    base: Seq<char>,
    prefix: Seq<char>,
)
    requires
        entries_ok(es, n),
    ensures
        distinct_paths(walk_entries(es, n, base, prefix)),
    decreases es, n,
{
    if n == 0 || n > es.len() {
    } else {
        let head = walk_entries(es, (n - 1) as nat, base, prefix);
        let tail = walk_entry(es[n - 1], base, prefix);
        lemma_walk_paths_distinct(es, (n - 1) as nat, base, prefix);
        lemma_entry_distinct(es[n - 1], base, prefix);
        lemma_entries_headed(es, (n - 1) as nat, base, prefix);
        lemma_entry_headed(es[n - 1], base, prefix);
        lemma_names_valid(es, n);
        let w = head + tail;
        assert forall|a: int, b: int| 0 <= a < b < w.len() implies step_path(#[trigger] w[a])
            != step_path(#[trigger] w[b]) by {
            if b < head.len() {
                assert(w[a] == head[a] && w[b] == head[b]);
            } else if a >= head.len() {
                assert(w[a] == tail[a - head.len()] && w[b] == tail[b - head.len()]);
            } else {
                let ra = step_path(head[a]);
                let rb = step_path(tail[b - head.len()]);
                assert(w[a] == head[a] && w[b] == tail[b - head.len()]);
                assert(headed_by_one(ra, prefix, es, (n - 1) as nat));
                let i = choose|i: int|
                    0 <= i < n - 1 && i < es.len() && headed(ra, prefix, (#[trigger] es[i]).name@);
                assert(headed(rb, prefix, es[n - 1].name@));
                if ra == rb {
                    lemma_headed_unique(ra, prefix, es[i].name@, es[n - 1].name@);
                }
            }
        }
    }
}

/// The names of a listing as a file system gives it are valid.
proof fn lemma_names_valid(es: Seq<DirEntry>, n: nat)
    requires
        entries_ok(es, n),
        n <= es.len(),
    ensures
        forall|i: int| 0 <= i < n ==> valid_name((#[trigger] es[i]).name@),
    decreases n,
{
    if n > 0 {
        lemma_names_valid(es, (n - 1) as nat);
        assert(entry_ok(es[n - 1]));
        assert(valid_name(es[n - 1].name@));
    }
}

/// The verdict that a step records, where `answer` says what the scanner
/// makes of each file.
pub open spec fn step_verdict(s: StepView, answer: spec_fn(Seq<char>) -> ScanOutcome) -> Verdict {
    match s {
        StepView::Record { relative, verdict } => verdict,
        StepView::Scan { file, relative } => verdict_for(answer(file)),
    }
}

/// The verdicts of a job once the steps have been taken in order, each
/// recorded over what was there before.
pub open spec fn settled(
    files: Map<Seq<char>, Verdict>,
    steps: Seq<StepView>,
    answer: spec_fn(Seq<char>) -> ScanOutcome,
) -> Map<Seq<char>, Verdict>
    decreases steps.len(),
{
    if steps.len() == 0 {
        files
    } else {
        settled(files, steps.drop_last(), answer).insert(
            step_path(steps.last()),
            step_verdict(steps.last(), answer),
        )
    }
}

/// The tracker settles a job step by step: recording the verdict of the
/// last step, over the verdicts settled before it, gives the verdicts settled
/// with it.
pub proof fn lemma_settled_step(
    jobs: Map<Seq<char>, JobState>,
    id: Seq<char>,
    steps: Seq<StepView>,
    answer: spec_fn(Seq<char>) -> ScanOutcome,
)
    requires
        jobs.contains_key(id),
        steps.len() > 0,
        jobs[id].files == settled(Map::empty(), steps.drop_last(), answer),
    ensures
        recorded(
            jobs,
            id,
            step_path(steps.last()),
            step_verdict(steps.last(), answer),
        )[id].files == settled(Map::empty(), steps, answer),
{
}

/// Where no two steps speak of the same path, every step's verdict stands in
/// the end, under the path of the step.
pub proof fn lemma_one_verdict_each(
    files: Map<Seq<char>, Verdict>,
    steps: Seq<StepView>,
    answer: spec_fn(Seq<char>) -> ScanOutcome,
    k: int,
)
    requires
        distinct_paths(steps),
        0 <= k < steps.len(),
    ensures
        settled(files, steps, answer).contains_key(step_path(steps[k])),
        settled(files, steps, answer)[step_path(steps[k])] == step_verdict(steps[k], answer),
    decreases steps.len(),
{
    if k < steps.len() - 1 {
        let front = steps.drop_last();
        assert(front[k] == steps[k]);
        assert(distinct_paths(front)) by {
            assert forall|a: int, b: int| 0 <= a < b < front.len() implies step_path(
                #[trigger] front[a],
            ) != step_path(#[trigger] front[b]) by {
                assert(front[a] == steps[a] && front[b] == steps[b]);
            }
        }
        lemma_one_verdict_each(files, front, answer, k);
        assert(step_path(steps[k]) != step_path(steps[steps.len() - 1]));
    }
}

/// Nothing else is reported: a path has a verdict in the end only if it had
/// one before or a step speaks of it, and a path that no step speaks of keeps
/// the verdict it had.
pub proof fn lemma_nothing_else(
    files: Map<Seq<char>, Verdict>,
    steps: Seq<StepView>,
    answer: spec_fn(Seq<char>) -> ScanOutcome,
    path: Seq<char>,
)
    requires
        forall|k: int| 0 <= k < steps.len() ==> step_path(#[trigger] steps[k]) != path,
    ensures
        settled(files, steps, answer).contains_key(path) == files.contains_key(path),
        files.contains_key(path) ==> settled(files, steps, answer)[path] == files[path],
    decreases steps.len(),
{
    if steps.len() > 0 {
        let front = steps.drop_last();
        assert forall|k: int| 0 <= k < front.len() implies step_path(#[trigger] front[k])
            != path by {
            assert(front[k] == steps[k]);
        }
        lemma_nothing_else(files, front, answer, path);
        assert(step_path(steps[steps.len() - 1]) != path);
    }
}

/// What is reported of a tree as a file system gives it: every step of the
/// walk leaves its own verdict. A link is clean, and a file is what the scanner's
/// answer for that file stands for, dirty where it could not be scanned,
/// whatever the scanner says of any other file.
pub proof fn lemma_report_of_walk(
    es: Seq<DirEntry>,
    base: Seq<char>,
    answer: spec_fn(Seq<char>) -> ScanOutcome,
    k: int,
)
    requires
        entries_ok(es, es.len()),
        0 <= k < walk_entries(es, es.len(), base, Seq::empty()).len(),
    ensures
        ({
            let steps = walk_entries(es, es.len(), base, Seq::empty());
            let report = settled(Map::empty(), steps, answer);
            &&& report.contains_key(step_path(steps[k]))
            &&& steps[k] is Record ==> report[step_path(steps[k])] == Verdict::Clean
            &&& steps[k] matches StepView::Scan { file, relative } ==> report[relative]
                == verdict_for(answer(file)) && (answer(file) == ScanOutcome::Failed
                ==> report[relative] == Verdict::Dirty)
        }),
{
    let steps = walk_entries(es, es.len(), base, Seq::empty());
    lemma_walk_paths_distinct(es, es.len(), base, Seq::empty());
    lemma_one_verdict_each(Map::empty(), steps, answer, k);
    crate::scan::lemma_walk_covers(es, es.len(), base, Seq::empty());
}

} // verus!
