//! What the catalogue's store is asked for, and what comes back: all
//! projects or the pinned ones, newest first, or one opaque failure.
//!
//! Talking to the store is left to the caller. The functions here take what
//! the store answered and hand on the list the views are owed.

use crate::models::{Filter, Project};
use crate::resource::FetchError;
use vstd::prelude::*;

verus! {

/// Why the store gave no rows.
#[derive(Clone, Copy, Debug, PartialEq, Eq, Hash, Structural)]
pub enum StoreError {
    /// There is no connection to the store.
    StoreUnavailable,
    /// The store could not run the query.
    QueryFailed,
    /// The answer could not be read.
    DeserializationError,
}

/// The one failure that the views get to see, whatever went wrong.
pub fn normalize(error: StoreError) -> (e: FetchError)
    ensures
        e == (FetchError {  }),
{
    FetchError {  }
}

/// The test for a pinned project.
pub open spec fn is_pinned() -> spec_fn(Project) -> bool {
    |p: Project| p.pinned
}

/// The pinned projects among `rows`, in the order of `rows`.
pub open spec fn pinned_of(rows: Seq<Project>) -> Seq<Project> {
    rows.filter(is_pinned())
}

/// Whether no project of `list` is older than one that follows it.
pub open spec fn is_newest_first(list: Seq<Project>) -> bool {
    forall|i: int, j: int|
        0 <= i < j < list.len() ==> !list[j].date_created.is_after(list[i].date_created)
}

/// How many projects at the head of `list` are newer than `p`.
pub open spec fn newer_than(p: Project, list: Seq<Project>) -> nat
    decreases list.len(),
{
    if list.len() > 0 && list[0].date_created.is_after(p.date_created) {
        1 + newer_than(p, list.drop_first())
    } else {
        0
    }
}

/// `list` with `p` put in behind the projects at its head that are newer
/// than `p`.
pub open spec fn insert_by_date(p: Project, list: Seq<Project>) -> Seq<Project> {
    list.insert(newer_than(p, list) as int, p)
}

/// `rows` ordered by the day of creation, newest first. Projects of the same
/// day keep the order they have in `rows`.
pub open spec fn newest_first(rows: Seq<Project>) -> Seq<Project>
    decreases rows.len(),
{
    if rows.len() == 0 {
        rows
    } else {
        insert_by_date(rows[0], newest_first(rows.drop_first()))
    }
}

/// Where `p` goes into a list: behind projects that are all newer, and in
/// front of one that is not.
pub proof fn lemma_newer_than(p: Project, list: Seq<Project>)
    ensures
        newer_than(p, list) <= list.len(),
        forall|i: int|
            0 <= i < newer_than(p, list) ==> (#[trigger] list[i]).date_created.is_after(
                p.date_created,
            ),
        newer_than(p, list) < list.len() ==> !list[newer_than(p, list) as int].date_created.is_after(
            p.date_created,
        ),
    decreases list.len(),
{
    if list.len() > 0 && list[0].date_created.is_after(p.date_created) {
        let rest = list.drop_first();
        lemma_newer_than(p, rest);
        assert forall|i: int| 0 <= i < newer_than(p, list) implies (#[trigger] list[i]).date_created.is_after(
            p.date_created,
        ) by {
            if i > 0 {
                assert(list[i] == rest[i - 1]);
            }
        }
        if newer_than(p, list) < list.len() {
            assert(list[newer_than(p, list) as int] == rest[newer_than(p, rest) as int]);
        }
    }
}

/// The position found by counting is the only one with newer projects before
/// it and none right behind it.
pub proof fn lemma_newer_than_is(p: Project, list: Seq<Project>, k: int)
    requires
        0 <= k <= list.len(),
        forall|i: int| 0 <= i < k ==> (#[trigger] list[i]).date_created.is_after(p.date_created),
        k < list.len() ==> !list[k].date_created.is_after(p.date_created),
    ensures
        newer_than(p, list) == k,
    decreases k,
{
    if k > 0 {
        let rest = list.drop_first();
        assert(list[0].date_created.is_after(p.date_created));
        assert forall|i: int| 0 <= i < k - 1 implies (#[trigger] rest[i]).date_created.is_after(
            p.date_created,
        ) by {
            assert(rest[i] == list[i + 1]);
        }
        if k - 1 < rest.len() {
            assert(rest[k - 1] == list[k]);
        }
        lemma_newer_than_is(p, rest, k - 1);
    }
}

/// Putting a project into a list that is newest first leaves it newest first,
/// and adds that project and nothing else.
pub proof fn lemma_insert_by_date(p: Project, list: Seq<Project>)
    requires
        is_newest_first(list),
    ensures
        is_newest_first(insert_by_date(p, list)),
        insert_by_date(p, list).len() == list.len() + 1,
        insert_by_date(p, list).to_multiset() == list.to_multiset().insert(p),
{
    let k = newer_than(p, list) as int;
    let out = insert_by_date(p, list);
    lemma_newer_than(p, list);
    vstd::seq_lib::to_multiset_insert(list, k, p);
    assert forall|i: int, j: int| 0 <= i < j < out.len() implies !out[j].date_created.is_after(
        out[i].date_created,
    ) by {
        if j < k {
            assert(out[i] == list[i] && out[j] == list[j]);
        } else if j == k {
            assert(out[i] == list[i]);
            assert(list[i].date_created.is_after(p.date_created));
        } else if i < k {
            assert(out[i] == list[i] && out[j] == list[j - 1]);
        } else if i == k {
            assert(out[j] == list[j - 1]);
            assert(!list[k].date_created.is_after(p.date_created));
            if j - 1 > k {
                assert(!list[j - 1].date_created.is_after(list[k].date_created));
            }
        } else {
            assert(out[i] == list[i - 1] && out[j] == list[j - 1]);
        }
    }
}

/// Ordering keeps every project, as often as it occurs, adds none, and puts
/// the newest first.
pub proof fn lemma_newest_first(rows: Seq<Project>)
    ensures
        is_newest_first(newest_first(rows)),
        newest_first(rows).len() == rows.len(),
        newest_first(rows).to_multiset() == rows.to_multiset(),
    decreases rows.len(),
{
    if rows.len() > 0 {
        let rest = rows.drop_first();
        lemma_newest_first(rest);
        lemma_insert_by_date(rows[0], newest_first(rest));
        assert(rows == rest.insert(0, rows[0]));
        vstd::seq_lib::to_multiset_insert(rest, 0, rows[0]);
    }
}

/// A list that is newest first already is left as it is, projects of one day
/// included.
pub proof fn lemma_ordered_rows_stay(rows: Seq<Project>)
    requires
        is_newest_first(rows),
    ensures
        newest_first(rows) == rows,
    decreases rows.len(),
{
    if rows.len() > 0 {
        let rest = rows.drop_first();
        assert forall|i: int, j: int| 0 <= i < j < rest.len() implies !rest[j].date_created.is_after(
            rest[i].date_created,
        ) by {
            assert(rest[i] == rows[i + 1] && rest[j] == rows[j + 1]);
        }
        lemma_ordered_rows_stay(rest);
        if rest.len() > 0 {
            assert(rest[0] == rows[1]);
        }
        lemma_newer_than_is(rows[0], rest, 0);
        assert(rest.insert(0, rows[0]) == rows);
    }
}

/// The store's answer to a request for every project: the rows newest first,
/// or the one failure the views know.
pub fn get_projects(answer: Result<Vec<Project>, StoreError>) -> (list: Result<
    Vec<Project>,
    FetchError,
>)
    ensures
        answer matches Ok(rows) ==> list matches Ok(out) && out@ == newest_first(rows@)
            && is_newest_first(out@) && out@.to_multiset() == rows@.to_multiset(),
        answer is Err ==> list == Err::<Vec<Project>, FetchError>((FetchError {  })),
{
    match answer {
        Ok(rows) => {
            proof {
                lemma_newest_first(rows@);
            }
            Ok(order_newest_first(rows, false))
        },
        Err(error) => Err(normalize(error)),
    }
}

/// The store's answer to a request for the pinned projects: the pinned rows
/// newest first, or the one failure the views know.
pub fn get_pinned_projects(answer: Result<Vec<Project>, StoreError>) -> (list: Result<
    Vec<Project>,
    FetchError,
>)
    ensures
        answer matches Ok(rows) ==> list matches Ok(out) && out@ == newest_first(pinned_of(rows@))
            && is_newest_first(out@) && out@.to_multiset() == pinned_of(rows@).to_multiset(),
        answer is Err ==> list == Err::<Vec<Project>, FetchError>((FetchError {  })),
{
    match answer {
        Ok(rows) => {
            proof {
                lemma_newest_first(pinned_of(rows@));
            }
            Ok(order_newest_first(rows, true))
        },
        Err(error) => Err(normalize(error)),
    }
}

/// The rows that `filter` asks for, in the order of `rows`.
pub open spec fn admitted(filter: Filter, rows: Seq<Project>) -> Seq<Project> {
    match filter {
        Filter::All => rows,
        Filter::PinnedOnly => pinned_of(rows),
    }
}

/// The store's answer to a request with `filter`: the rows that the filter
/// asks for, newest first, or the one failure the views know.
pub fn query(filter: Filter, answer: Result<Vec<Project>, StoreError>) -> (list: Result<
    Vec<Project>,
    FetchError,
>)
    ensures
        answer matches Ok(rows) ==> list matches Ok(out) && out@ == newest_first(
            admitted(filter, rows@),
        ) && is_newest_first(out@) && out@.to_multiset() == admitted(filter, rows@).to_multiset(),
        answer is Err ==> list == Err::<Vec<Project>, FetchError>((FetchError {  })),
{
    match filter {
        Filter::All => get_projects(answer),
        Filter::PinnedOnly => get_pinned_projects(answer),
    }
}

/// The rows that are asked for, newest first.
fn order_newest_first(rows: Vec<Project>, pinned_only: bool) -> (out: Vec<Project>)
    ensures
        out@ == newest_first(
            if pinned_only {
                pinned_of(rows@)
            } else {
                rows@
            },
        ),
{
    let ghost all = rows@;
    let mut rows = rows;
    let mut out: Vec<Project> = Vec::new();
    proof {
        assert(all.subrange(all.len() as int, all.len() as int) == Seq::<Project>::empty());
        assert(pinned_of(Seq::<Project>::empty()) == Seq::<Project>::empty()) by {
            reveal(Seq::filter);
        }
    }
    while rows.len() > 0
        invariant
            rows@ == all.subrange(0, rows@.len() as int),
            rows@.len() <= all.len(),
            out@ == newest_first(
                if pinned_only {
                    pinned_of(all.subrange(rows@.len() as int, all.len() as int))
                } else {
                    all.subrange(rows@.len() as int, all.len() as int)
                },
            ),
        decreases rows.len(),
    {
        let ghost n = rows@.len() as int;
        let ghost tail = all.subrange(n, all.len() as int);
        let p = rows.pop().unwrap();
        let ghost next = all.subrange(n - 1, all.len() as int);
        proof {
            assert(p == all[n - 1]);
            assert(next == seq![p] + tail);
            assert(next.drop_first() == tail);
            tail.lemma_filter_prepend(p, is_pinned());
            assert(rows@ == all.subrange(0, n - 1));
        }
        if pinned_only && !p.pinned {
            assert(pinned_of(next) == pinned_of(tail));
        } else {
            let ghost kept = if pinned_only {
                pinned_of(tail)
            } else {
                tail
            };
            proof {
                if pinned_only {
                    assert(pinned_of(next) == seq![p] + kept);
                    assert((seq![p] + kept).drop_first() == kept);
                }
                lemma_newer_than(p, out@);
            }
            let mut k: usize = 0;
            while k < out.len() && out[k].date_created.later_than(&p.date_created)
                invariant
                    k <= out.len(),
                    k <= newer_than(p, out@),
                    newer_than(p, out@) <= out.len(),
                    forall|i: int|
                        0 <= i < newer_than(p, out@) ==> (#[trigger] out@[i]).date_created.is_after(
                            p.date_created,
                        ),
                    newer_than(p, out@) < out.len() ==> !out@[newer_than(
                        p,
                        out@,
                    ) as int].date_created.is_after(p.date_created),
                decreases out.len() - k,
            {
                k += 1;
            }
            assert(k == newer_than(p, out@));
            out.insert(k, p);
        }
    }
    assert(all.subrange(0, all.len() as int) == all);
    out
}

/// The pinned list is the list of all projects with the others left out: it
/// makes no difference whether the pinned rows are picked before ordering or
/// after.
pub proof fn lemma_pinned_list_is_part_of_full_list(rows: Seq<Project>)
    ensures
        newest_first(pinned_of(rows)) == pinned_of(newest_first(rows)),
    decreases rows.len(),
{
    if rows.len() == 0 {
        assert(pinned_of(rows) == rows) by {
            reveal(Seq::filter);
        }
    } else {
        let rest = rows.drop_first();
        let p = rows[0];
        lemma_pinned_list_is_part_of_full_list(rest);
        lemma_newest_first(rest);
        lemma_insert_keeps_pinned(p, newest_first(rest));
        assert(rows == seq![p] + rest);
        rest.lemma_filter_prepend(p, is_pinned());
        if p.pinned {
            assert(pinned_of(rows) == seq![p] + pinned_of(rest));
            assert((seq![p] + pinned_of(rest)).drop_first() == pinned_of(rest));
        }
    }
}

/// Picking the pinned projects after putting one more into an ordered list
/// gives what putting it into the pinned ones gives, if it is pinned, and
/// the pinned ones alone if it is not.
pub proof fn lemma_insert_keeps_pinned(p: Project, list: Seq<Project>)
    requires
        is_newest_first(list),
    ensures
        pinned_of(insert_by_date(p, list)) == if p.pinned {
            insert_by_date(p, pinned_of(list))
        } else {
            pinned_of(list)
        },
{
    let k = newer_than(p, list) as int;
    let head = list.subrange(0, k);
    let tail = list.subrange(k, list.len() as int);
    lemma_newer_than(p, list);
    assert(list == head + tail);
    assert(insert_by_date(p, list) == head + (seq![p] + tail));
    Seq::filter_distributes_over_add(head, tail, is_pinned());
    Seq::filter_distributes_over_add(head, seq![p] + tail, is_pinned());
    tail.lemma_filter_prepend(p, is_pinned());
    let kept_head = pinned_of(head);
    let kept_tail = pinned_of(tail);
    if p.pinned {
        assert(pinned_of(insert_by_date(p, list)) == kept_head + (seq![p] + kept_tail));
        let kept = pinned_of(list);
        assert(kept == kept_head + kept_tail);
        assert forall|i: int| 0 <= i < kept_head.len() implies (#[trigger] kept[i]).date_created.is_after(
            p.date_created,
        ) by {
            assert(kept[i] == kept_head[i]);
            lemma_filtered_from(head, i);
        }
        if kept_head.len() < kept.len() {
            assert(kept[kept_head.len() as int] == kept_tail[0]);
            lemma_filtered_from(tail, 0);
            let j = choose|j: int| 0 <= j < tail.len() && tail[j] == kept_tail[0];
            assert(tail[j] == list[k + j]);
            assert(!list[k].date_created.is_after(p.date_created));
            if j > 0 {
                assert(!list[k + j].date_created.is_after(list[k].date_created));
            }
        }
        lemma_newer_than_is(p, kept, kept_head.len() as int);
        assert(kept.insert(kept_head.len() as int, p) == kept_head + (seq![p] + kept_tail));
    } else {
        assert(pinned_of(insert_by_date(p, list)) == kept_head + kept_tail);
    }
}

/// Every pinned project picked from a list stands in that list.
proof fn lemma_filtered_from(list: Seq<Project>, i: int)
    requires
        0 <= i < pinned_of(list).len(),
    ensures
        exists|j: int| 0 <= j < list.len() && list[j] == pinned_of(list)[i],
{
    let kept = pinned_of(list);
    assert(kept.contains(kept[i]));
    list.lemma_filter_contains_rev(is_pinned(), kept[i]);
    assert(list.contains(kept[i]));
}

} // verus!
