//! Laws of the Flight registry: what validation means, and what adding,
//! removing, updating and moving entries keep.

use vstd::prelude::*;
use crate::ids::NIL_ID;
use crate::registry::{
    add_error, entry_problem, first_problem, first_with_id, has_id, has_path, id_is_not,
    at_cached_path, entry_status, name_matches, opt_text, other_id, outcome_report, patched, report_moves, EntryOutcome, validation_error, with_moved_path, with_moves,
    with_scan_path, CachedFlight, EntryView, PatchView, RegistryView, ReportView, StatusView, CURRENT_VERSION,
};
use crate::text::{lemma_trim_idempotent, str_to_lowercase, trim};
use crate::time::Timestamp;

verus! {

/// No two entries share an id or a path, no id is nil, and no name or path
/// is blank.
pub open spec fn entries_consistent(s: Seq<EntryView>) -> bool {
    &&& forall|i: int| 0 <= i < s.len() ==> (#[trigger] s[i]).id != NIL_ID
    &&& forall|i: int| 0 <= i < s.len() ==> trim((#[trigger] s[i]).name).len() > 0
    &&& forall|i: int| 0 <= i < s.len() ==> trim((#[trigger] s[i]).path).len() > 0
    &&& forall|i: int, j: int| 0 <= i < j < s.len() ==> (#[trigger] s[i]).id != (#[trigger] s[j]).id
    &&& forall|i: int, j: int| 0 <= i < j < s.len() ==> (#[trigger] s[i]).path != (#[trigger] s[j]).path
}

/// The first `n` entries of `s` pass exactly when each of them passes.
proof fn lemma_first_problem_none(s: Seq<EntryView>, n: int)
    requires
        0 <= n <= s.len(),
    ensures
        first_problem(s, n) is None <==> forall|i: int| 0 <= i < n ==> (#[trigger] entry_problem(s, i)) is None,
    decreases n,
{
    if n > 0 {
        lemma_first_problem_none(s, n - 1);
        if first_problem(s, n - 1) is Some {
            lemma_some_stays(s, n - 1);
        }
    }
}

proof fn lemma_some_stays(s: Seq<EntryView>, n: int)
    requires
        0 <= n,
        first_problem(s, n) is Some,
    ensures
        first_problem(s, n + 1) is Some,
{
}

/// With every earlier entry passing, the entry at `i` passes exactly when it
/// is consistent with them.
proof fn lemma_entry_problem_none(s: Seq<EntryView>, i: int)
    requires
        0 <= i < s.len(),
    ensures
        entry_problem(s, i) is None <==> {
            &&& s[i].id != NIL_ID
            &&& trim(s[i].name).len() > 0
            &&& trim(s[i].path).len() > 0
            &&& forall|j: int| 0 <= j < i ==> (#[trigger] s[j]).id != s[i].id
            &&& forall|j: int| 0 <= j < i ==> (#[trigger] s[j]).path != s[i].path
        },
{
    if entry_problem(s, i) is None {
        assert forall|j: int| 0 <= j < i implies (#[trigger] s[j]).id != s[i].id by {
            if s[j].id == s[i].id {
                assert(exists|k: int| 0 <= k < i && #[trigger] s[k].id == s[i].id);
            }
        }
        assert forall|j: int| 0 <= j < i implies (#[trigger] s[j]).path != s[i].path by {
            if s[j].path == s[i].path {
                assert(exists|k: int| 0 <= k < i && #[trigger] s[k].path == s[i].path);
            }
        }
    }
}

/// A registry passes validation exactly when its version is supported and
/// its entries are consistent: no nil id, no blank name or path, and no two
/// entries with the same id or the same path.
pub proof fn law_valid_means_consistent(v: RegistryView)
    ensures
        validation_error(v) is None <==> (1 <= v.version <= CURRENT_VERSION && entries_consistent(v.flights)),
{
    let s = v.flights;
    lemma_first_problem_none(s, s.len() as int);
    if 1 <= v.version <= CURRENT_VERSION {
        if first_problem(s, s.len() as int) is None {
            assert forall|i: int| 0 <= i < s.len() implies (#[trigger] s[i]).id != NIL_ID && trim(
                s[i].name,
            ).len() > 0 && trim(s[i].path).len() > 0 by {
                assert(entry_problem(s, i) is None);
                lemma_entry_problem_none(s, i);
            }
            assert forall|i: int, j: int| 0 <= i < j < s.len() implies (#[trigger] s[i]).id != (
            #[trigger] s[j]).id && s[i].path != s[j].path by {
                assert(entry_problem(s, j) is None);
                lemma_entry_problem_none(s, j);
                assert(s[i] == s[i]);
            }
        }
        if entries_consistent(s) {
            assert forall|i: int| 0 <= i < s.len() implies (#[trigger] entry_problem(s, i)) is None by {
                lemma_entry_problem_none(s, i);
                assert forall|j: int| 0 <= j < i implies (#[trigger] s[j]).id != s[i].id by {
                    assert(s[j].id != s[i].id);
                }
                assert forall|j: int| 0 <= j < i implies (#[trigger] s[j]).path != s[i].path by {
                    assert(s[j].path != s[i].path);
                }
            }
        }
    }
}

/// After a Flight is added under an id that no entry had, the id leads to the
/// new entry: the registry has it, and the new entry is the first with it.
pub proof fn law_added_entry_is_found(s: Seq<EntryView>, e: EntryView)
    requires
        !has_id(s, e.id),
    ensures
        has_id(s.push(e), e.id),
        first_with_id(s.push(e), e.id, s.len() as int),
        s.push(e)[s.len() as int] == e,
{
    let t = s.push(e);
    assert(t[s.len() as int].id == e.id);
    assert forall|j: int| 0 <= j < s.len() implies #[trigger] t[j].id != e.id by {
        assert(t[j] == s[j]);
    }
}

/// Adding a Flight that `add_entry` accepts, with a non-nil id, to a registry
/// that passes validation gives one that passes validation.
pub proof fn law_add_keeps_valid(v: RegistryView, name: Seq<char>, path: Seq<char>, e: EntryView)
    requires
        validation_error(v) is None,
        add_error(v, name, path, e.id) is None,
        e.id != NIL_ID,
        e.name == trim(name),
        e.path == trim(path),
    ensures
        validation_error(RegistryView { flights: v.flights.push(e), ..v }) is None,
{
    let s = v.flights;
    let t = s.push(e);
    law_valid_means_consistent(v);
    law_valid_means_consistent(RegistryView { flights: t, ..v });
    lemma_trim_idempotent(name);
    lemma_trim_idempotent(path);
    assert forall|i: int| 0 <= i < t.len() implies (#[trigger] t[i]).id != NIL_ID && trim(t[i].name).len() > 0
        && trim(t[i].path).len() > 0 by {
        if i < s.len() {
            assert(t[i] == s[i]);
        }
    }
    assert forall|i: int, j: int| 0 <= i < j < t.len() implies (#[trigger] t[i]).id != (#[trigger] t[j]).id
        && t[i].path != t[j].path by {
        assert(t[i] == s[i]);
        if j < s.len() {
            assert(t[j] == s[j]);
        } else {
            assert(t[j] == e);
            if s[i].id == e.id {
                assert(has_id(s, e.id));
            }
            if s[i].path == e.path {
                assert(has_path(s, trim(path)));
            }
        }
    }
}

/// After the Flights with an id are removed, no entry has that id.
pub proof fn law_removed_id_is_gone(s: Seq<EntryView>, id: u128)
    ensures
        !has_id(s.filter(id_is_not(id)), id),
{
    broadcast use vstd::seq_lib::group_filter_ensures;

    let f = s.filter(id_is_not(id));
    assert forall|i: int| 0 <= i < f.len() implies #[trigger] f[i].id != id by {
        assert(id_is_not(id)(f[i]));
    }
}

/// Removing entries keeps the remaining ones consistent.
pub proof fn law_remove_keeps_consistent(s: Seq<EntryView>, id: u128)
    requires
        entries_consistent(s),
    ensures
        entries_consistent(s.filter(id_is_not(id))),
    decreases s.len(),
{
    broadcast use vstd::seq_lib::group_filter_ensures;

    reveal(Seq::filter);
    if s.len() > 0 {
        let d = s.drop_last();
        assert(entries_consistent(d)) by {
            assert forall|i: int| 0 <= i < d.len() implies #[trigger] d[i] == s[i] by {}
        }
        law_remove_keeps_consistent(d, id);
        let fd = d.filter(id_is_not(id));
        if id_is_not(id)(s.last()) {
            let f = fd.push(s.last());
            assert forall|i: int| 0 <= i < fd.len() implies (#[trigger] fd[i]).id != s.last().id
                && fd[i].path != s.last().path by {
                assert(fd.contains(fd[i]));
                d.lemma_filter_contains_rev(id_is_not(id), fd[i]);
                assert(d.contains(fd[i]));
                let k = choose|k: int| 0 <= k < d.len() && d[k] == fd[i];
                assert(s[k] == d[k]);
                assert(s[s.len() - 1] == s.last());
            }
            assert forall|i: int, j: int| 0 <= i < j < f.len() implies (#[trigger] f[i]).id != (
            #[trigger] f[j]).id && f[i].path != f[j].path by {
                assert(f[i] == fd[i]);
                if j < fd.len() {
                    assert(f[j] == fd[j]);
                } else {
                    assert(f[j] == s.last());
                }
            }
            assert forall|i: int| 0 <= i < f.len() implies (#[trigger] f[i]).id != NIL_ID && trim(
                f[i].name,
            ).len() > 0 && trim(f[i].path).len() > 0 by {
                if i < fd.len() {
                    assert(f[i] == fd[i]);
                } else {
                    assert(s[s.len() - 1] == s.last());
                }
            }
        }
    }
}

/// Entries match a query exactly as they match any query with the same
/// lowercase form: the search ignores case.
pub proof fn law_search_ignores_case(s: Seq<EntryView>, q1: Seq<char>, q2: Seq<char>)
    requires
        str_to_lowercase(q1) == str_to_lowercase(q2),
    ensures
        s.filter(name_matches(q1)) == s.filter(name_matches(q2)),
{
    assert(name_matches(q1) =~= name_matches(q2));
}

/// Whatever was found in the entries that a search returns: each is in the
/// registry and matches the query.
pub proof fn law_search_results_match(s: Seq<EntryView>, q: Seq<char>)
    ensures
        forall|i: int| 0 <= i < s.filter(name_matches(q)).len() ==> {
            &&& s.contains(#[trigger] s.filter(name_matches(q))[i])
            &&& name_matches(q)(s.filter(name_matches(q))[i])
        },
{
    broadcast use vstd::seq_lib::group_filter_ensures;

    let f = s.filter(name_matches(q));
    assert forall|i: int| 0 <= i < f.len() implies s.contains(#[trigger] f[i]) && name_matches(q)(f[i]) by {
        assert(f.contains(f[i]));
        s.lemma_filter_contains_rev(name_matches(q), f[i]);
    }
}

/// An empty patch changes nothing.
pub proof fn law_empty_patch_keeps_entry(e: EntryView, t: Timestamp)
    ensures
        patched(
            e,
            PatchView { name: None, path: None, is_favorite: None, bump_last_opened: false, word_count: None },
            t,
        ) == e,
{
}

/// A patch leaves the id and the creation time alone, and a registry whose
/// entries are consistent stays so when one entry takes a patch that does not
/// touch its path.
pub proof fn law_update_keeps_consistent(s: Seq<EntryView>, i: int, p: PatchView, t: Timestamp)
    requires
        entries_consistent(s),
        0 <= i < s.len(),
        p.path is None,
    ensures
        patched(s[i], p, t).id == s[i].id,
        patched(s[i], p, t).created_at == s[i].created_at,
        entries_consistent(s.update(i, patched(s[i], p, t))),
{
    let e = patched(s[i], p, t);
    let u = s.update(i, e);
    if p.name is Some {
        lemma_trim_idempotent(p.name->0);
    }
    assert forall|k: int| 0 <= k < u.len() implies (#[trigger] u[k]).id != NIL_ID && trim(u[k].name).len() > 0
        && trim(u[k].path).len() > 0 by {
        if k != i {
            assert(u[k] == s[k]);
        }
    }
    assert forall|a: int, b: int| 0 <= a < b < u.len() implies (#[trigger] u[a]).id != (#[trigger] u[b]).id
        && u[a].path != u[b].path by {
        assert(s[a] == s[a] && s[b] == s[b]);
    }
}

/// Adding a Flight leaves its path among the scan paths.
pub proof fn law_added_path_is_scanned(s: Seq<Seq<char>>, p: Seq<char>)
    ensures
        with_scan_path(s, p).contains(p),
{
    if !s.contains(p) {
        assert(s.push(p)[s.len() as int] == p);
    }
}

/// After a Flight is recorded at a new path, the id leads to the same entry
/// with that path and nothing else changed.
pub proof fn law_moved_path_is_read_back(s: Seq<EntryView>, id: u128, path: Seq<char>, i: int)
    requires
        first_with_id(s, id, i),
    ensures
        first_with_id(with_moved_path(s, id, path), id, i),
        with_moved_path(s, id, path)[i] == (EntryView { path, ..s[i] }),
        with_moved_path(s, id, path).len() == s.len(),
        forall|k: int| 0 <= k < s.len() && k != i ==> #[trigger] with_moved_path(s, id, path)[k] == s[k],
{
    assert(has_id(s, id));
    let k = choose|k: int| first_with_id(s, id, k);
    if k < i {
        assert(s[k].id != id);
    } else if i < k {
        assert(s[i].id != id);
    }
}

/// The entry `e` after the report `rep` on it: at the new path if it was
/// reported moved, unchanged otherwise.
pub open spec fn reported_entry(e: EntryView, rep: ReportView) -> EntryView {
    match rep.status {
        StatusView::Moved { new_path, .. } => EntryView { path: new_path, ..e },
        _ => e,
    }
}

/// The moves of the first `m` reports leave the first `m` entries as
/// reported and the others unchanged.
proof fn lemma_reported_prefix(s: Seq<EntryView>, reps: Seq<ReportView>, m: int)
    requires
        reps.len() == s.len(),
        0 <= m <= s.len(),
        forall|k: int| 0 <= k < s.len() ==> #[trigger] reps[k].id == s[k].id,
        forall|i: int, j: int| 0 <= i < j < s.len() ==> (#[trigger] s[i]).id != (#[trigger] s[j]).id,
    ensures
        with_moves(s, report_moves(reps.take(m))).len() == s.len(),
        forall|i: int| 0 <= i < s.len() ==> #[trigger] with_moves(s, report_moves(reps.take(m)))[i] == (if i < m {
            reported_entry(s[i], reps[i])
        } else {
            s[i]
        }),
    decreases m,
{
    if m == 0 {
        assert(reps.take(0) =~= Seq::<ReportView>::empty());
    } else {
        lemma_reported_prefix(s, reps, m - 1);
        let prev = report_moves(reps.take(m - 1));
        let t = with_moves(s, prev);
        assert(reps.take(m).drop_last() =~= reps.take(m - 1));
        assert(reps.take(m).last() == reps[m - 1]);
        match reps[m - 1].status {
            StatusView::Moved { new_path, .. } => {
                let x = (reps[m - 1].id, new_path);
                assert(report_moves(reps.take(m)) == prev.push(x));
                assert(prev.push(x).drop_last() =~= prev);
                assert(with_moves(s, prev.push(x)) == with_moved_path(t, x.0, x.1));
                assert forall|j: int| 0 <= j < m - 1 implies #[trigger] t[j].id != x.0 by {
                    assert(t[j] == reported_entry(s[j], reps[j]));
                    assert(s[j].id != s[m - 1].id);
                }
                assert(t[m - 1] == s[m - 1]);
                assert(first_with_id(t, x.0, m - 1));
                law_moved_path_is_read_back(t, x.0, x.1, m - 1);
            },
            _ => {
                assert(report_moves(reps.take(m)) == prev);
            },
        }
    }
}

/// Reconciliation keeps what it reports: when the ids are distinct and each
/// report is on the entry at its position, every entry reported `Moved` ends
/// up at its new path, and every other entry is unchanged.
pub proof fn law_reconciled_moves_are_read_back(s: Seq<EntryView>, reps: Seq<ReportView>)
    requires
        reps.len() == s.len(),
        forall|k: int| 0 <= k < s.len() ==> #[trigger] reps[k].id == s[k].id,
        forall|i: int, j: int| 0 <= i < j < s.len() ==> (#[trigger] s[i]).id != (#[trigger] s[j]).id,
    ensures
        with_moves(s, report_moves(reps)).len() == s.len(),
        forall|i: int| 0 <= i < s.len() ==> #[trigger] with_moves(s, report_moves(reps))[i] == reported_entry(
            s[i],
            reps[i],
        ),
{
    lemma_reported_prefix(s, reps, s.len() as int);
    assert(reps.take(s.len() as int) =~= reps);
}

/// Reports that are all `Found` record no moves.
proof fn lemma_found_reports_move_nothing(reps: Seq<ReportView>)
    requires
        forall|k: int| 0 <= k < reps.len() ==> (#[trigger] reps[k]).status == StatusView::Found,
    ensures
        report_moves(reps) == Seq::<(u128, Seq<char>)>::empty(),
    decreases reps.len(),
{
    if reps.len() > 0 {
        let rest = reps.drop_last();
        assert forall|k: int| 0 <= k < rest.len() implies (#[trigger] rest[k]).status == StatusView::Found by {
            assert(rest[k] == reps[k]);
        }
        lemma_found_reports_move_nothing(rest);
        assert(reps.last() == reps[reps.len() - 1]);
    }
}

/// A pass in which every entry's Flight is where the registry holds it
/// reports every entry `Found` and changes no entry. In particular, after a
/// pass that recorded a Flight at the directory holding its `.flight` file
/// (see [`law_reconciled_moves_are_read_back`]), a later pass that finds that
/// file there with the Flight's id reports it `Found` and leaves its path as
/// it is.
pub proof fn law_flights_in_place_are_found(s: Seq<EntryView>, outcomes: Seq<EntryOutcome>, reps: Seq<ReportView>)
    requires
        outcomes.len() == s.len(),
        reps.len() == s.len(),
        forall|k: int| 0 <= k < s.len() ==> #[trigger] reps[k] == outcome_report(s[k], outcomes[k]),
        forall|k: int| 0 <= k < s.len() ==> at_cached_path(s[k].id, #[trigger] outcomes[k].cached),
    ensures
        forall|k: int| 0 <= k < s.len() ==> (#[trigger] reps[k]).status == StatusView::Found,
        report_moves(reps) == Seq::<(u128, Seq<char>)>::empty(),
        with_moves(s, report_moves(reps)) == s,
{
    assert forall|k: int| 0 <= k < reps.len() implies (#[trigger] reps[k]).status == StatusView::Found by {
        assert(at_cached_path(s[k].id, outcomes[k].cached));
    }
    lemma_found_reports_move_nothing(reps);
}

/// What a patch sets: each field it gives takes the given value (a name or
/// path trimmed, and only when not blank), a bump sets the last-opened time
/// to the time of the update, and every field it does not give keeps its
/// value; the id and the creation time never change.
pub proof fn law_patch_sets_given_fields(e: EntryView, p: PatchView, t: Timestamp)
    ensures
        ({
            let r = patched(e, p, t);
            &&& r.id == e.id
            &&& r.created_at == e.created_at
            &&& (p.word_count matches Some(w) ==> r.word_count == w)
            &&& (p.word_count is None ==> r.word_count == e.word_count)
            &&& (p.is_favorite matches Some(b) ==> r.is_favorite == b)
            &&& (p.is_favorite is None ==> r.is_favorite == e.is_favorite)
            &&& (p.bump_last_opened ==> r.last_opened_at == t)
            &&& (!p.bump_last_opened ==> r.last_opened_at == e.last_opened_at)
            &&& (p.name is Some && trim(p.name->0).len() > 0 ==> r.name == trim(p.name->0))
            &&& (!(p.name is Some && trim(p.name->0).len() > 0) ==> r.name == e.name)
            &&& (p.path is Some && trim(p.path->0).len() > 0 ==> r.path == trim(p.path->0))
            &&& (!(p.path is Some && trim(p.path->0).len() > 0) ==> r.path == e.path)
        }),
{
}

/// What reconciling reports on an entry: `Found` when its Flight is at the
/// cached path; otherwise `Moved` from the cached path to the directory where
/// the scan paths showed it, whatever was at the cached path; and only when
/// the scan paths did not show it, `Mismatch` at the cached path, with the id
/// of another Flight found there, if any.
pub proof fn law_reconcile_status(e: EntryView, cached: CachedFlight, found_at: Option<Seq<char>>)
    ensures
        at_cached_path(e.id, cached) ==> entry_status(e, cached, found_at) == StatusView::Found,
        !at_cached_path(e.id, cached) && found_at is Some ==> entry_status(e, cached, found_at)
            == (StatusView::Moved { old_path: e.path, new_path: found_at->0 }),
        !at_cached_path(e.id, cached) && found_at is None ==> entry_status(e, cached, found_at)
            == (StatusView::Mismatch { path: e.path, mismatched_id: other_id(cached) }),
{
}

/// After a reconciling pass over entries with distinct ids, each entry whose
/// Flight was not at its cached path but was shown by the scan paths in the
/// directory `d` is held at `d`, whatever was at its cached path; every other
/// entry is unchanged.
pub proof fn law_reconcile_moves_shown_flights(s: Seq<EntryView>, outcomes: Seq<EntryOutcome>, reps: Seq<ReportView>)
    requires
        outcomes.len() == s.len(),
        reps.len() == s.len(),
        forall|k: int| 0 <= k < s.len() ==> #[trigger] reps[k] == outcome_report(s[k], outcomes[k]),
        forall|i: int, j: int| 0 <= i < j < s.len() ==> (#[trigger] s[i]).id != (#[trigger] s[j]).id,
    ensures
        with_moves(s, report_moves(reps)).len() == s.len(),
        forall|k: int|
            0 <= k < s.len() ==> {
                let after = #[trigger] with_moves(s, report_moves(reps))[k];
                if !at_cached_path(s[k].id, outcomes[k].cached) && outcomes[k].found_at is Some {
                    after == EntryView { path: outcomes[k].found_at->0@, ..s[k] }
                } else {
                    after == s[k]
                }
            },
{
    assert forall|k: int| 0 <= k < s.len() implies #[trigger] reps[k].id == s[k].id by {
        assert(reps[k] == outcome_report(s[k], outcomes[k]));
    }
    law_reconciled_moves_are_read_back(s, reps);
    assert forall|k: int| 0 <= k < s.len() implies {
        let after = #[trigger] with_moves(s, report_moves(reps))[k];
        if !at_cached_path(s[k].id, outcomes[k].cached) && outcomes[k].found_at is Some {
            after == EntryView { path: outcomes[k].found_at->0@, ..s[k] }
        } else {
            after == s[k]
        }
    } by {
        assert(reps[k] == outcome_report(s[k], outcomes[k]));
        law_reconcile_status(s[k], outcomes[k].cached, opt_text(outcomes[k].found_at));
    }
}

} // verus!
