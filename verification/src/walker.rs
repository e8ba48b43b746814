//! Recursive directory traversal.
//!
//! A walk visits a directory tree by repeatedly listing the directories it
//! discovers, driving an explicit stack of pending entries rather than
//! native recursion. Two orders are offered:
//! - top-down: a directory is yielded before anything discovered inside it;
//! - bottom-up: everything discovered inside a directory is yielded before
//!   the directory itself — the order recursive delete needs.
//!
//! Ordering across siblings is backend-defined and not guaranteed. Entries
//! whose paths do not extend the directory being listed are skipped
//! defensively, as is a path seen twice in one listing, so a walk's output
//! respects its order whatever the backend returns.

use vstd::prelude::*;

use crate::accessor::{valid_list_entry, Accessor, OpList};
use crate::error::{Error, ErrorKind};
use crate::meta::{EntryView, ObjectEntry, ObjectMetadata, ObjectMode};
use crate::ops::Operation;
use crate::pager::Page;
use crate::ops::spec_supports;
use crate::path::{
    check_child_of, check_dir_path, dir_form_of, is_ancestor_of, is_child_of, is_dir_path,
    lemma_prefix_nested, lemma_sibling_no_ancestor, lemma_starts_with_chain, lemma_unique_parent,
    parent_of, starts_with, to_dir_path,
};

verus! {

/// No entry is an ancestor of an earlier one: parents come first.
pub open spec fn topdown_ordered(entries: Seq<EntryView>) -> bool {
    forall|i: int, j: int|
        0 <= i < j < entries.len() ==> !is_ancestor_of(
            (#[trigger] entries[j]).path,
            (#[trigger] entries[i]).path,
        )
}

/// No entry is an ancestor of a later one: children come first.
pub open spec fn bottomup_ordered(entries: Seq<EntryView>) -> bool {
    forall|i: int, j: int|
        0 <= i < j < entries.len() ==> !is_ancestor_of(
            (#[trigger] entries[i]).path,
            (#[trigger] entries[j]).path,
        )
}

/// The new log extends the old one with nothing but this operation.
pub open spec fn appended_only(before: Seq<Operation>, after: Seq<Operation>, op: Operation) -> bool {
    &&& before.len() <= after.len()
    &&& after.subrange(0, before.len() as int) == before
    &&& forall|i: int| before.len() <= i < after.len() ==> after[i] == op
}

/// How many list calls a single walk may issue before giving up; a guard
/// against unboundedly deep or cyclic listings.
pub const WALK_LIST_LIMIT: usize = 1000000;

/// The log extended by nothing is extended only by `op`.
proof fn lemma_appended_refl(s: Seq<Operation>, op: Operation)
    ensures
        appended_only(s, s, op),
{
    assert(s.subrange(0, s.len() as int) =~= s);
}

/// The log extended by one `op` is extended only by `op`.
proof fn lemma_appended_push(s: Seq<Operation>, op: Operation)
    ensures
        appended_only(s, s.push(op), op),
{
    assert(s.push(op).subrange(0, s.len() as int) =~= s);
}

/// Extending only by `op` twice is extending only by `op`.
proof fn lemma_appended_trans(a: Seq<Operation>, b: Seq<Operation>, c: Seq<Operation>, op: Operation)
    requires
        appended_only(a, b, op),
        appended_only(b, c, op),
    ensures
        appended_only(a, c, op),
{
    assert(c.subrange(0, a.len() as int) =~= c.subrange(0, b.len() as int).subrange(
        0,
        a.len() as int,
    ));
    assert forall|i: int| a.len() <= i < c.len() implies c[i] == op by {
        if i < b.len() {
            assert(c.subrange(0, b.len() as int)[i] == c[i]);
            assert(b[i] == op);
        }
    }
}

/// Drain one directory's pager into a vector, keeping exactly the entries
/// that lie directly inside the directory, each path at most once, each a
/// sound listing entry of the store.
fn list_all<A: Accessor>(acc: &mut A, dir: &str) -> (r: Result<Vec<ObjectEntry>, Error>)
    ensures
        final(acc).meta_view() == old(acc).meta_view(),
        final(acc).store() == old(acc).store(),
        final(acc).reliable() == old(acc).reliable(),
        appended_only(old(acc).oplog(), final(acc).oplog(), Operation::List),
        spec_supports(old(acc).meta_view().caps, Operation::List) ==> final(acc).oplog() == old(
            acc,
        ).oplog().push(Operation::List),
        spec_supports(old(acc).meta_view().caps, Operation::List) && old(acc).reliable()
            ==> r is Ok,
        r matches Ok(es) ==> {
            &&& forall|i: int| 0 <= i < es@.len() ==> is_child_of(dir@, (#[trigger] es@[i])@.path)
            &&& forall|i: int, j: int|
                0 <= i < j < es@.len() ==> (#[trigger] es@[i])@.path != (#[trigger] es@[j])@.path
            &&& forall|i: int|
                0 <= i < es@.len() ==> valid_list_entry(
                    old(acc).store(),
                    parent_of((#[trigger] es@[i])@.path),
                    es@[i]@,
                )
        },
{
    let ghost log0 = acc.oplog();
    let ghost store0 = acc.store();
    let ghost ns0 = crate::accessor::list_ns_of(acc.meta_view().root, dir@);
    let result = acc.list(dir, OpList::new());
    proof {
        if acc.oplog() == log0 {
            lemma_appended_refl(log0, Operation::List);
        } else {
            lemma_appended_push(log0, Operation::List);
        }
    }
    let (rp, mut pager) = match result {
        Ok(v) => v,
        Err(e) => {
            return Err(e);
        },
    };
    let mut out: Vec<ObjectEntry> = Vec::new();
    let mut done = false;
    while !done
        invariant
            acc.meta_view() == old(acc).meta_view(),
            acc.store() == old(acc).store(),
            acc.reliable() == old(acc).reliable(),
            store0 == old(acc).store(),
            ns0 == crate::accessor::list_ns_of(old(acc).meta_view().root, dir@),
            appended_only(old(acc).oplog(), acc.oplog(), Operation::List),
            spec_supports(old(acc).meta_view().caps, Operation::List) ==> acc.oplog() == old(
                acc,
            ).oplog().push(Operation::List),
            old(acc).reliable() ==> pager.infallible(),
            forall|i: int|
                0 <= i < pager.remaining_entries().len() ==> valid_list_entry(
                    store0,
                    ns0,
                    #[trigger] pager.remaining_entries()[i],
                ),
            forall|i: int| 0 <= i < out@.len() ==> is_child_of(dir@, (#[trigger] out@[i])@.path),
            forall|i: int, j: int|
                0 <= i < j < out@.len() ==> (#[trigger] out@[i])@.path != (#[trigger] out@[j])@.path,
            forall|i: int|
                0 <= i < out@.len() ==> valid_list_entry(
                    store0,
                    parent_of((#[trigger] out@[i])@.path),
                    out@[i]@,
                ),
        decreases pager.remaining_entries().len() + (if done {
            0int
        } else {
            1int
        }),
    {
        let ghost rem0 = pager.remaining_entries();
        match pager.next_page() {
            Ok(Some(page)) => {
                proof {
                    assert(forall|i: int|
                        0 <= i < pager.remaining_entries().len()
                            ==> #[trigger] pager.remaining_entries()[i] == rem0[i + page@.len()]);
                }
                let mut t: usize = 0;
                while t < page.len()
                    invariant
                        t <= page@.len(),
                        page@.len() <= rem0.len(),
                        forall|i: int| 0 <= i < page@.len() ==> #[trigger] page@[i]@ == rem0[i],
                        forall|i: int|
                            0 <= i < rem0.len() ==> valid_list_entry(
                                store0,
                                ns0,
                                #[trigger] rem0[i],
                            ),
                        forall|i: int|
                            0 <= i < out@.len() ==> is_child_of(dir@, (#[trigger] out@[i])@.path),
                        forall|i: int, j: int|
                            0 <= i < j < out@.len() ==> (#[trigger] out@[i])@.path != (
                            #[trigger] out@[j])@.path,
                        forall|i: int|
                            0 <= i < out@.len() ==> valid_list_entry(
                                store0,
                                parent_of((#[trigger] out@[i])@.path),
                                out@[i]@,
                            ),
                    decreases page@.len() - t,
                {
                    let e = page[t].duplicate();
                    if check_child_of(dir, e.path()) && !contains_path(&out, e.path()) {
                        proof {
                            assert(valid_list_entry(store0, ns0, e@));
                            assert(parent_of(e@.path) == ns0);
                        }
                        out.push(e);
                    }
                    t = t + 1;
                }
            },
            Ok(None) => {
                done = true;
            },
            Err(e) => {
                return Err(e);
            },
        }
    }
    Ok(out)
}

/// Whether some collected entry already carries this path.
fn contains_path(v: &Vec<ObjectEntry>, p: &str) -> (r: bool)
    ensures
        r == exists|i: int| 0 <= i < v@.len() && (#[trigger] v@[i])@.path == p@,
{
    let owned = p.to_owned();
    let n = v.len();
    let mut i: usize = 0;
    while i < n
        invariant
            owned@ == p@,
            i <= n,
            n == v@.len(),
            forall|j: int| 0 <= j < i ==> (#[trigger] v@[j])@.path != p@,
        decreases n - i,
    {
        let hit = String::from_str(v[i].path()) == owned;
        if hit {
            return true;
        }
        i = i + 1;
    }
    false
}

/// The sum of pending entries across all stack frames.
pub open spec fn total_pending(stack: Seq<Vec<ObjectEntry>>) -> int
    decreases stack.len(),
{
    if stack.len() == 0 {
        0
    } else {
        total_pending(stack.drop_last()) + stack.last()@.len()
    }
}

proof fn lemma_total_pending_bounds(stack: Seq<Vec<ObjectEntry>>)
    ensures
        total_pending(stack) >= 0,
        forall|fi: int|
            0 <= fi < stack.len() ==> total_pending(stack) >= (#[trigger] stack[fi])@.len(),
    decreases stack.len(),
{
    if stack.len() > 0 {
        lemma_total_pending_bounds(stack.drop_last());
        assert(forall|fi: int| 0 <= fi < stack.len() - 1 ==> stack.drop_last()[fi] == stack[fi]);
    }
}

proof fn lemma_total_pending_pop(stack: Seq<Vec<ObjectEntry>>)
    requires
        stack.len() > 0,
    ensures
        total_pending(stack) == total_pending(stack.drop_last()) + stack.last()@.len(),
{
}

/// Walk a tree top-down, rooted at `path`: the root's directory entry and
/// everything reachable through listing, with every directory's own entries
/// yielded before any of its subdirectories is descended into, every entry
/// strictly after every ancestor of it, no path yielded twice, and every
/// entry beyond the root a sound listing entry of the store. On a reliable,
/// List-capable backend the walk fails only by exhausting its list budget.
pub fn walk_top_down_all<A: Accessor>(acc: &mut A, path: &str) -> (r: Result<
    Vec<ObjectEntry>,
    Error,
>)
    ensures
        final(acc).meta_view() == old(acc).meta_view(),
        final(acc).store() == old(acc).store(),
        final(acc).reliable() == old(acc).reliable(),
        appended_only(old(acc).oplog(), final(acc).oplog(), Operation::List),
        r matches Ok(out) ==> {
            &&& topdown_ordered(out@.map_values(|e: ObjectEntry| e@))
            &&& out@.len() >= 1
            &&& out@[0]@.path == (if is_dir_path(path@) {
                path@
            } else {
                path@ + seq!['/']
            })
            &&& forall|i: int, j: int|
                0 <= i < j < out@.len() ==> (#[trigger] out@[i])@.path != (#[trigger] out@[j])@.path
            &&& forall|i: int|
                1 <= i < out@.len() ==> valid_list_entry(
                    old(acc).store(),
                    parent_of((#[trigger] out@[i])@.path),
                    out@[i]@,
                )
        },
        old(acc).reliable() && spec_supports(old(acc).meta_view().caps, Operation::List) && r
            is Err ==> final(acc).oplog().len() == old(acc).oplog().len() + WALK_LIST_LIMIT,
{
    let droot = to_dir_path(path);
    let root_entry = ObjectEntry::new(droot.as_str(), ObjectMetadata::new(ObjectMode::Dir));
    let mut out: Vec<ObjectEntry> = Vec::new();
    out.push(root_entry.duplicate());
    let mut first_frame: Vec<ObjectEntry> = Vec::new();
    first_frame.push(root_entry);
    let mut stack: Vec<Vec<ObjectEntry>> = Vec::new();
    stack.push(first_frame);
    let ghost mut listed: Set<Seq<char>> = Set::empty();
    proof {
        lemma_appended_refl(old(acc).oplog(), Operation::List);
        assert(stack@[0]@[0]@.path == droot@);
        assert(droot@.subrange(0, droot@.len() as int) =~= droot@);
    }
    let mut budget: usize = WALK_LIST_LIMIT;
    while stack.len() > 0
        invariant
            acc.meta_view() == old(acc).meta_view(),
            acc.store() == old(acc).store(),
            acc.reliable() == old(acc).reliable(),
            appended_only(old(acc).oplog(), acc.oplog(), Operation::List),
            // the budget pays for exactly one listing each
            old(acc).reliable() && spec_supports(old(acc).meta_view().caps, Operation::List)
                ==> acc.oplog().len() + budget == old(acc).oplog().len() + WALK_LIST_LIMIT,
            topdown_ordered(out@.map_values(|e: ObjectEntry| e@)),
            out@.len() >= 1,
            out@[0]@.path == droot@,
            // no path is yielded twice
            forall|i: int, j: int|
                0 <= i < j < out@.len() ==> (#[trigger] out@[i])@.path != (#[trigger] out@[j])@.path,
            // every entry beyond the root came from a listing of the store
            forall|oi: int|
                1 <= oi < out@.len() ==> valid_list_entry(
                    old(acc).store(),
                    parent_of((#[trigger] out@[oi])@.path),
                    out@[oi]@,
                ),
            // ... and lies directly inside an already-listed directory
            forall|oi: int|
                1 <= oi < out@.len() ==> listed.contains(
                    dir_form_of(parent_of((#[trigger] out@[oi])@.path)),
                ),
            // nothing under a pending entry has been yielded yet
            forall|fi: int, pi: int, oi: int|
                0 <= fi < stack@.len() && 0 <= pi < (#[trigger] stack@[fi])@.len() && 0 <= oi
                    < out@.len() ==> !is_ancestor_of(
                    (#[trigger] stack@[fi]@[pi])@.path,
                    (#[trigger] out@[oi])@.path,
                ),
            // pending entries never nest and never repeat
            forall|fi: int, pi: int, fj: int, pj: int|
                0 <= fi < stack@.len() && 0 <= pi < (#[trigger] stack@[fi])@.len() && 0 <= fj
                    < stack@.len() && 0 <= pj < (#[trigger] stack@[fj])@.len() && !(fi == fj && pi
                    == pj) ==> !is_ancestor_of(
                    (#[trigger] stack@[fi]@[pi])@.path,
                    (#[trigger] stack@[fj]@[pj])@.path,
                ) && stack@[fi]@[pi]@.path != stack@[fj]@[pj]@.path,
            // nothing at or under a pending entry has been listed yet
            forall|l: Seq<char>, fi: int, pi: int|
                #![trigger listed.contains(l), stack@[fi]@[pi]]
                listed.contains(l) && 0 <= fi < stack@.len() && 0 <= pi < stack@[fi]@.len()
                    ==> stack@[fi]@[pi]@.path != l && !is_ancestor_of(stack@[fi]@[pi]@.path, l),
            // every pending entry lies at or under the walk root
            forall|fi: int, pi: int|
                0 <= fi < stack@.len() && 0 <= pi < (#[trigger] stack@[fi])@.len() ==> starts_with(
                    droot@,
                    (#[trigger] stack@[fi]@[pi])@.path,
                ),
        decreases budget, stack@.len() + total_pending(stack@),
    {
        let ghost stack0 = stack@;
        let ghost out0 = out@;
        let mut frame = match stack.pop() {
            Some(f) => f,
            None => {
                return Err(Error::new(ErrorKind::Unexpected, "walk stack underflow"));
            },
        };
        proof {
            lemma_total_pending_pop(stack0);
            lemma_total_pending_bounds(stack@);
        }
        if frame.len() == 0 {
            // an exhausted frame is dropped
            proof {
                assert(forall|fi: int| 0 <= fi < stack@.len() ==> stack@[fi] == stack0[fi]);
            }
        } else {
            let e = match frame.pop() {
                Some(x) => x,
                None => {
                    return Err(Error::new(ErrorKind::Unexpected, "walk frame underflow"));
                },
            };
            let ghost frame0 = stack0.last()@;
            let ghost ev = e@;
            let ghost mut listed0 = listed;
            stack.push(frame);
            let ghost stack1 = stack@;
            proof {
                lemma_total_pending_pop(stack1);
                assert(stack1.drop_last() =~= stack0.drop_last());
                assert(stack1.last()@ =~= frame0.drop_last());
                assert(stack1.len() == stack0.len());
                assert(forall|fi: int| 0 <= fi < stack1.len() - 1 ==> stack1[fi] == stack0[fi]);
                assert(forall|pi: int|
                    0 <= pi < stack1.last()@.len() ==> #[trigger] stack1.last()@[pi] == frame0[pi]);
                assert(ev == frame0[frame0.len() - 1]@);
                // the still-pending entries keep their relations
                assert forall|fi: int, pi: int|
                    #![trigger stack1[fi]@[pi]]
                    0 <= fi < stack1.len() && 0 <= pi < stack1[fi]@.len() implies stack1[fi]@[pi]
                    == (if fi < stack1.len() - 1 {
                    stack0[fi]@[pi]
                } else {
                    frame0[pi]
                }) by {
                    if fi == stack1.len() - 1 {
                        assert(stack1[fi]@ == frame0.drop_last());
                    }
                }
            }
            if !check_dir_path(e.path()) {
                // a leaf entry was already yielded when its directory was
                // listed; nothing to descend into
            } else {
                if budget == 0 {
                    return Err(
                        Error::new(
                            ErrorKind::Unexpected,
                            "directory tree is larger than the walk limit",
                        ),
                    );
                }
                budget = budget - 1;
                proof {
                    // the popped directory was never listed before: nothing
                    // at or under a pending entry is in the listed set
                    assert(!listed.contains(ev.path)) by {
                        if listed.contains(ev.path) {
                            assert(stack0[stack0.len() - 1]@[frame0.len() - 1]@.path != ev.path);
                        }
                    }
                    listed0 = listed;
                    listed = listed.insert(ev.path);
                    // the remaining pendings stay clear of the grown set
                    assert forall|l: Seq<char>, fi: int, pi: int|
                        #![trigger listed.contains(l), stack1[fi]@[pi]]
                        listed.contains(l) && 0 <= fi < stack1.len() && 0 <= pi
                            < stack1[fi]@.len() implies stack1[fi]@[pi]@.path != l
                        && !is_ancestor_of(stack1[fi]@[pi]@.path, l) by {}
                }
                let ghost log_pre = acc.oplog();
                let children_result = list_all(acc, e.path());
                proof {
                    lemma_appended_trans(old(acc).oplog(), log_pre, acc.oplog(), Operation::List);
                }
                let children = match children_result {
                    Ok(v) => v,
                    Err(err) => {
                        return Err(err);
                    },
                };
                proof {
                    assert forall|i: int, j: int|
                        (0 <= i < children@.len() && 0 <= j < children@.len() && i != j) implies (
                    !is_ancestor_of(
                        (#[trigger] children@[i])@.path,
                        (#[trigger] children@[j])@.path,
                    )) by {
                        lemma_sibling_no_ancestor(ev.path, children@[i]@.path, children@[j]@.path);
                    }
                    assert(forall|i: int|
                        0 <= i < children@.len() ==> is_ancestor_of(
                            ev.path,
                            (#[trigger] children@[i])@.path,
                        ));
                    // a child is an ancestor of nothing yielded so far: its
                    // directory would be one too
                    assert forall|i: int, oi: int|
                        (0 <= i < children@.len() && 0 <= oi < out@.len()) implies !is_ancestor_of(
                        (#[trigger] children@[i])@.path,
                        (#[trigger] out@[oi])@.path,
                    ) by {
                        if is_ancestor_of(children@[i]@.path, out@[oi]@.path) {
                            lemma_child_ancestor_lifts(ev.path, children@[i]@.path, out@[oi]@.path);
                        }
                    }
                    // a child repeats nothing yielded so far: its path would
                    // make the freshly listed directory an already-listed one
                    assert forall|i: int, oi: int|
                        (0 <= i < children@.len() && 0 <= oi < out@.len()) implies (
                    #[trigger] children@[i])@.path != (#[trigger] out@[oi])@.path by {
                        if children@[i]@.path == out@[oi]@.path {
                            if oi == 0 {
                                assert(starts_with(droot@, ev.path));
                                assert(children@[i]@.path.len() > droot@.len());
                            } else {
                                let d = dir_form_of(parent_of(out@[oi]@.path));
                                lemma_unique_parent(ev.path, d, children@[i]@.path);
                            }
                        }
                    }
                    // a child neither nests with nor repeats a pending entry
                    assert forall|i: int, fj: int, pj: int|
                        #![trigger children@[i], stack1[fj]@[pj]]
                        (0 <= i < children@.len() && 0 <= fj < stack1.len() && 0 <= pj
                            < stack1[fj]@.len()) implies {
                        let c = children@[i]@.path;
                        let p = stack1[fj]@[pj]@.path;
                        &&& !is_ancestor_of(c, p)
                        &&& !is_ancestor_of(p, c)
                        &&& c != p
                    } by {
                        let c = children@[i]@.path;
                        let p = stack1[fj]@[pj]@.path;
                        lemma_pending_vs_child(ev.path, c, p);
                    }
                    // a child stays clear of every listed directory
                    assert forall|i: int, l: Seq<char>|
                        #![trigger children@[i], listed.contains(l)]
                        (0 <= i < children@.len() && listed.contains(l)) implies (
                        children@[i]@.path != l && !is_ancestor_of(children@[i]@.path, l)) by {
                        let c = children@[i]@.path;
                        if l != ev.path {
                            assert(listed0.contains(l));
                            if c == l {
                                assert(is_ancestor_of(ev.path, l));
                            }
                            if is_ancestor_of(c, l) {
                                lemma_child_ancestor_lifts(ev.path, c, l);
                            }
                        }
                    }
                    // every child lies under the walk root
                    assert forall|i: int| 0 <= i < children@.len() implies starts_with(
                        droot@,
                        (#[trigger] children@[i])@.path,
                    ) by {
                        lemma_starts_with_chain(droot@, ev.path, children@[i]@.path);
                    }
                }
                // yield the directory's own entries, in listing order
                let mut t: usize = 0;
                while t < children.len()
                    invariant
                        t <= children@.len(),
                        out@.len() == out0.len() + t,
                        forall|oi: int| 0 <= oi < out0.len() ==> #[trigger] out@[oi] == out0[oi],
                        forall|oi: int|
                            out0.len() <= oi < out@.len() ==> (#[trigger] out@[oi])@ == children@[oi
                                - out0.len()]@,
                    decreases children@.len() - t,
                {
                    out.push(children[t].duplicate());
                    t = t + 1;
                }
                // restore the ordering, uniqueness and provenance facts over
                // the grown output
                proof {
                    let outv = out@.map_values(|x: ObjectEntry| x@);
                    let outv0 = out0.map_values(|x: ObjectEntry| x@);
                    assert forall|i: int, j: int| 0 <= i < j < outv.len() implies !is_ancestor_of(
                        (#[trigger] outv[j]).path,
                        (#[trigger] outv[i]).path,
                    ) by {
                        assert(outv[i] == out@[i]@ && outv[j] == out@[j]@);
                        if j < out0.len() {
                            assert(outv0[i] == out0[i]@ && outv0[j] == out0[j]@);
                        } else {
                            assert(out@[j]@ == children@[j - out0.len()]@);
                            if i >= out0.len() {
                                assert(out@[i]@ == children@[i - out0.len()]@);
                            }
                        }
                    }
                    assert forall|i: int, j: int| 0 <= i < j < out@.len() implies (
                    #[trigger] out@[i])@.path != (#[trigger] out@[j])@.path by {
                        if j >= out0.len() {
                            assert(out@[j]@ == children@[j - out0.len()]@);
                            if i >= out0.len() {
                                assert(out@[i]@ == children@[i - out0.len()]@);
                            }
                        }
                    }
                    assert forall|oi: int| 1 <= oi < out@.len() implies valid_list_entry(
                        old(acc).store(),
                        parent_of((#[trigger] out@[oi])@.path),
                        out@[oi]@,
                    ) by {
                        if oi >= out0.len() {
                            assert(out@[oi]@ == children@[oi - out0.len()]@);
                        }
                    }
                    assert forall|oi: int| 1 <= oi < out@.len() implies listed.contains(
                        dir_form_of(parent_of((#[trigger] out@[oi])@.path)),
                    ) by {
                        if oi >= out0.len() {
                            assert(out@[oi]@ == children@[oi - out0.len()]@);
                            assert(is_child_of(
                                dir_form_of(parent_of(out@[oi]@.path)),
                                out@[oi]@.path,
                            ));
                            lemma_unique_parent(
                                ev.path,
                                dir_form_of(parent_of(out@[oi]@.path)),
                                out@[oi]@.path,
                            );
                        } else {
                            assert(out@[oi] == out0[oi]);
                        }
                    }
                    assert forall|fi: int, pi: int, oi: int|
                        #![trigger stack1[fi]@[pi], out@[oi]]
                        (0 <= fi < stack1.len() && 0 <= pi < stack1[fi]@.len() && 0 <= oi
                            < out@.len()) implies !is_ancestor_of(
                        stack1[fi]@[pi]@.path,
                        out@[oi]@.path,
                    ) by {
                        if oi >= out0.len() {
                            assert(out@[oi]@ == children@[oi - out0.len()]@);
                        }
                    }
                }
                // queue the listing for descent: leaves will be skipped when
                // they surface
                stack.push(children);
                proof {
                    let ghost stack2 = stack@;
                    assert(stack2.drop_last() =~= stack1);
                    assert(stack2.last() == children);
                    assert forall|fi: int, pi: int|
                        #![trigger stack2[fi]@[pi]]
                        0 <= fi < stack2.len() && 0 <= pi < stack2[fi]@.len() implies (if fi
                            < stack2.len() - 1 {
                        stack2[fi]@[pi] == stack1[fi]@[pi]
                    } else {
                        stack2[fi]@[pi] == children@[pi]
                    }) by {}
                }
            }
        }
    }
    Ok(out)
}

/// An ancestor relation through a child lifts to the child's directory.
proof fn lemma_child_ancestor_lifts(d: Seq<char>, c: Seq<char>, x: Seq<char>)
    requires
        is_ancestor_of(d, c),
        is_ancestor_of(c, x),
    ensures
        is_ancestor_of(d, x),
{
    lemma_starts_with_chain(d, c, x);
}

/// A fresh child of a just-listed directory cannot nest with, nor equal, an
/// entry that was already pending: the pending entry neither lies under the
/// directory nor above it.
proof fn lemma_pending_vs_child(d: Seq<char>, c: Seq<char>, p: Seq<char>)
    requires
        is_ancestor_of(d, c),
        !is_ancestor_of(d, p),
        !is_ancestor_of(p, d),
        p != d,
    ensures
        !is_ancestor_of(c, p),
        !is_ancestor_of(p, c),
        c != p,
{
    if is_ancestor_of(c, p) {
        lemma_starts_with_chain(d, c, p);
        assert(is_ancestor_of(d, p));
    }
    if is_ancestor_of(p, c) {
        assert(starts_with(p, c));
        assert(starts_with(d, c));
        if p.len() <= d.len() {
            lemma_prefix_nested(p, d, c);
            assert(starts_with(p, d));
            if p.len() < d.len() {
                assert(is_ancestor_of(p, d));
            } else {
                assert(p =~= d);
            }
        } else {
            lemma_prefix_nested(d, p, c);
            assert(is_ancestor_of(d, p));
        }
    }
    if c == p {
        assert(is_ancestor_of(d, p));
    }
}

/// Walk a tree bottom-up, rooted at `path`: the same entries as the
/// top-down walk, with everything discovered inside a directory placed
/// strictly before the directory itself, no path yielded twice, and every
/// entry but the final root a sound listing entry of the store. On a
/// reliable, List-capable backend the walk fails only by exhausting its
/// list budget.
pub fn walk_bottom_up_all<A: Accessor>(acc: &mut A, path: &str) -> (r: Result<
    Vec<ObjectEntry>,
    Error,
>)
    ensures
        final(acc).meta_view() == old(acc).meta_view(),
        final(acc).store() == old(acc).store(),
        final(acc).reliable() == old(acc).reliable(),
        appended_only(old(acc).oplog(), final(acc).oplog(), Operation::List),
        r matches Ok(out) ==> {
            &&& bottomup_ordered(out@.map_values(|e: ObjectEntry| e@))
            &&& out@.len() >= 1
            &&& out@[out@.len() - 1]@.path == (if is_dir_path(path@) {
                path@
            } else {
                path@ + seq!['/']
            })
            &&& forall|i: int, j: int|
                0 <= i < j < out@.len() ==> (#[trigger] out@[i])@.path != (#[trigger] out@[j])@.path
            &&& forall|i: int|
                0 <= i < out@.len() - 1 ==> valid_list_entry(
                    old(acc).store(),
                    parent_of((#[trigger] out@[i])@.path),
                    out@[i]@,
                )
        },
        old(acc).reliable() && spec_supports(old(acc).meta_view().caps, Operation::List) && r
            is Err ==> final(acc).oplog().len() == old(acc).oplog().len() + WALK_LIST_LIMIT,
{
    let forward = match walk_top_down_all(acc, path) {
        Ok(v) => v,
        Err(e) => {
            return Err(e);
        },
    };
    let mut out: Vec<ObjectEntry> = Vec::new();
    let n = forward.len();
    let mut i: usize = n;
    while i > 0
        invariant
            n == forward@.len(),
            i <= n,
            out@.len() == n - i,
            forall|j: int| 0 <= j < out@.len() ==> (#[trigger] out@[j])@ == forward@[n - 1 - j]@,
        decreases i,
    {
        i = i - 1;
        out.push(forward[i].duplicate());
    }
    proof {
        let outv = out@.map_values(|e: ObjectEntry| e@);
        let fwdv = forward@.map_values(|e: ObjectEntry| e@);
        assert(topdown_ordered(fwdv));
        assert forall|i0: int, j0: int| 0 <= i0 < j0 < outv.len() implies !is_ancestor_of(
            (#[trigger] outv[i0]).path,
            (#[trigger] outv[j0]).path,
        ) by {
            assert(outv[i0] == fwdv[n - 1 - i0]);
            assert(outv[j0] == fwdv[n - 1 - j0]);
            assert(!is_ancestor_of(fwdv[n - 1 - i0].path, fwdv[n - 1 - j0].path));
        }
        assert forall|i0: int, j0: int| 0 <= i0 < j0 < out@.len() implies (
        #[trigger] out@[i0])@.path != (#[trigger] out@[j0])@.path by {
            assert(out@[i0]@ == forward@[n - 1 - i0]@ && out@[j0]@ == forward@[n - 1 - j0]@);
            assert(forward@[n - 1 - j0]@.path != forward@[n - 1 - i0]@.path);
        }
        assert forall|i0: int| 0 <= i0 < out@.len() - 1 implies valid_list_entry(
            old(acc).store(),
            parent_of((#[trigger] out@[i0])@.path),
            out@[i0]@,
        ) by {
            assert(out@[i0]@ == forward@[n - 1 - i0]@);
            assert(1 <= n - 1 - i0 < forward@.len());
        }
        assert(out@[out@.len() - 1]@ == forward@[0]@);
    }
    Ok(out)
}

} // verus!
