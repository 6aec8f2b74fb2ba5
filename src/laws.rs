//! Laws of the record store, stated over the store's view and the effects that
//! its operations' contracts give.

use vstd::prelude::*;
use crate::db::{
    has_person, has_service, is_active_person, lookup_person, lookup_service, person_slot,
    unique_persons, DbView, ServiceView,
};
use crate::date::{service_date_of, CalendarDate};
use crate::db::{add_item, group_items, in_window, key_slot, manager_body, report_lines, Item, MissingReference};
use crate::record::{Consultation, PersonInfo};
use crate::report::{by_service_date, consultation_summary, insert_ordered, sort_ordered};

verus! {

/// The persons after a person was added to them (what `add_member`,
/// `add_provider`, `load_member` and `load_provider` do on success).
pub open spec fn person_added(s: Seq<(PersonInfo, bool)>, p: PersonInfo, active: bool) -> Seq<(PersonInfo, bool)> {
    s.push((p, active))
}

/// The persons after the one with id `id` was removed (what `remove_member`
/// and `remove_provider` do on success).
pub open spec fn person_removed(s: Seq<(PersonInfo, bool)>, id: u32) -> Seq<(PersonInfo, bool)> {
    s.remove(person_slot(s, id))
}

proof fn lemma_added_slot(s: Seq<(PersonInfo, bool)>, p: PersonInfo, active: bool)
    requires
        !has_person(s, p@.id),
    ensures
        has_person(person_added(s, p, active), p@.id),
        person_slot(person_added(s, p, active), p@.id) == s.len(),
{
    let t = person_added(s, p, active);
    assert(t[s.len() as int].0@.id == p@.id);
    let k = person_slot(t, p@.id);
    if k < s.len() {
        assert(t[k] == s[k]);
    }
}

/// Adding a person whose id is free and then reading that id back gives the
/// same person, field for field, with the flag it was added with; a member
/// added through `add_member` is therefore valid.
pub proof fn lemma_person_round_trip(s: Seq<(PersonInfo, bool)>, p: PersonInfo, active: bool)
    requires
        unique_persons(s),
        !has_person(s, p@.id),
    ensures
        lookup_person(person_added(s, p, active), p@.id) == Some(p),
        lookup_person(person_added(s, p, active), p@.id).unwrap()@ == p@,
        is_active_person(person_added(s, p, active), p@.id) == active,
{
    lemma_added_slot(s, p, active);
}

/// Adding a service whose id is free and then reading that id back gives the
/// same id, name and fee.
pub proof fn lemma_service_round_trip(s: Seq<ServiceView>, e: ServiceView)
    requires
        !has_service(s, e.id),
    ensures
        lookup_service(s.push(e), e.id) == Some(e),
{
    let t = s.push(e);
    assert(t[s.len() as int].id == e.id);
    let k = choose|i: int| 0 <= i < t.len() && t[i].id == e.id;
    if k < s.len() {
        assert(t[k] == s[k]);
    }
}

/// A consultation that was added is the last record of the log, unchanged.
pub proof fn lemma_consultation_round_trip(log: Seq<Consultation>, c: Consultation)
    ensures
        log.push(c).last() == c,
        log.push(c).last()@ == c@,
        log.push(c).subrange(0, log.len() as int) == log,
{
    assert(log.push(c).subrange(0, log.len() as int) =~= log);
}

/// Once a person is added, its id is taken: a second person with the same id
/// is refused (`DuplicateId`, with the store unchanged, by the contracts of
/// the adding operations).
pub proof fn lemma_duplicate_refused(s: Seq<(PersonInfo, bool)>, p: PersonInfo, active: bool, q: PersonInfo)
    requires
        !has_person(s, p@.id),
        q@.id == p@.id,
    ensures
        has_person(person_added(s, p, active), q@.id),
{
    lemma_added_slot(s, p, active);
}

/// Removing a person that was just added succeeds, after which its id is not
/// found and not valid.
pub proof fn lemma_remove_after_add(s: Seq<(PersonInfo, bool)>, p: PersonInfo, active: bool)
    requires
        unique_persons(s),
        !has_person(s, p@.id),
    ensures
        has_person(person_added(s, p, active), p@.id),
        !has_person(person_removed(person_added(s, p, active), p@.id), p@.id),
        lookup_person(person_removed(person_added(s, p, active), p@.id), p@.id) is None,
        !is_active_person(person_removed(person_added(s, p, active), p@.id), p@.id),
{
    lemma_added_slot(s, p, active);
    let t = person_removed(person_added(s, p, active), p@.id);
    assert(t =~= s);
}

/// A removed person's id is not found and not valid any more.
pub proof fn lemma_removed_not_valid(s: Seq<(PersonInfo, bool)>, id: u32)
    requires
        unique_persons(s),
        has_person(s, id),
    ensures
        !has_person(person_removed(s, id), id),
        lookup_person(person_removed(s, id), id) is None,
        !is_active_person(person_removed(s, id), id),
{
    let k = person_slot(s, id);
    let t = person_removed(s, id);
    if has_person(t, id) {
        let j = choose|j: int| 0 <= j < t.len() && t[j].0@.id == id;
        if j < k {
            assert(t[j] == s[j]);
        } else {
            assert(t[j] == s[j + 1]);
        }
    }
}

/// A person read back with the flag off (as stored rows may be) is present but
/// not valid.
pub proof fn lemma_inactive_not_valid(s: Seq<(PersonInfo, bool)>, p: PersonInfo)
    requires
        unique_persons(s),
        !has_person(s, p@.id),
    ensures
        has_person(person_added(s, p, false), p@.id),
        !is_active_person(person_added(s, p, false), p@.id),
{
    lemma_added_slot(s, p, false);
}

proof fn lemma_insert_ordered_from<A>(s: Seq<A>, x: A, le: spec_fn(A, A) -> bool, y: A)
    requires
        insert_ordered(s, x, le).contains(y),
    ensures
        s.contains(y) || y == x,
    decreases s.len(),
{
    let t = insert_ordered(s, x, le);
    let i = choose|i: int| 0 <= i < t.len() && t[i] == y;
    if s.len() == 0 || le(s.last(), x) {
        if i < s.len() {
            assert(s[i] == y);
        }
    } else {
        let u = insert_ordered(s.drop_last(), x, le);
        if i < u.len() {
            assert(u[i] == y);
            lemma_insert_ordered_from(s.drop_last(), x, le, y);
            if s.drop_last().contains(y) {
                let k = choose|k: int| 0 <= k < s.drop_last().len() && s.drop_last()[k] == y;
                assert(s[k] == y);
            }
        } else {
            assert(s[s.len() - 1] == y);
        }
    }
}

proof fn lemma_sort_ordered_from<A>(s: Seq<A>, le: spec_fn(A, A) -> bool, y: A)
    requires
        sort_ordered(s, le).contains(y),
    ensures
        s.contains(y),
    decreases s.len(),
{
    if s.len() > 0 {
        lemma_insert_ordered_from(sort_ordered(s.drop_last(), le), s.last(), le, y);
        if sort_ordered(s.drop_last(), le).contains(y) {
            lemma_sort_ordered_from(s.drop_last(), le, y);
            let k = choose|k: int| 0 <= k < s.drop_last().len() && s.drop_last()[k] == y;
            assert(s[k] == y);
        } else {
            assert(s[s.len() - 1] == y);
        }
    }
}

/// A consultation whose service date lies before the start of the report
/// window is listed in no member or provider report.
pub proof fn lemma_old_consultation_not_reported(db: DbView, cutoff: CalendarDate, c: Consultation)
    requires
        service_date_of(c@.service_date).ordinal() < cutoff.ordinal(),
    ensures
        !report_lines(db, cutoff).contains(c),
{
    if report_lines(db, cutoff).contains(c) {
        lemma_sort_ordered_from(db.consultations.filter(in_window(cutoff)), by_service_date(), c);
        let k = choose|k: int| 0 <= k < db.consultations.filter(in_window(cutoff)).len()
            && db.consultations.filter(in_window(cutoff))[k] == c;
        db.consultations.lemma_filter_pred(in_window(cutoff), k);
    }
}

/// The manager report lists every recorded consultation, whatever its date:
/// the summary of each record stands in its body.
pub proof fn lemma_manager_report_lists_all(log: Seq<Consultation>, i: int)
    requires
        0 <= i < log.len(),
    ensures
        exists|a: Seq<char>, b: Seq<char>| manager_body(log) == a + consultation_summary(log[i]@) + "\n"@ + b,
    decreases log.len(),
{
    if i == log.len() - 1 {
        let a = manager_body(log.drop_last());
        assert(manager_body(log) == a + consultation_summary(log[i]@) + "\n"@ + Seq::<char>::empty());
    } else {
        lemma_manager_report_lists_all(log.drop_last(), i);
        assert(log.drop_last()[i] == log[i]);
        let (a, b) = choose|a: Seq<char>, b: Seq<char>|
            manager_body(log.drop_last()) == a + consultation_summary(log[i]@) + "\n"@ + b;
        let tail = consultation_summary(log.last()@) + "\n"@;
        assert(manager_body(log) =~= a + consultation_summary(log[i]@) + "\n"@ + (b + tail));
    }
}

/// Reports made while skipping consultations with a missing reference never
/// fail.
pub proof fn lemma_skip_never_fails(lines: Seq<Consultation>, item: spec_fn(Consultation) -> Option<Item>)
    ensures
        group_items(lines, item, MissingReference::Skip) is Some,
    decreases lines.len(),
{
    if lines.len() > 0 {
        lemma_skip_never_fails(lines.drop_last(), item);
    }
}

/// A report run makes one report per addressee: the addressees' ids are
/// distinct, and each has exactly one report, one count and one total.
pub proof fn lemma_one_report_per_addressee(
    lines: Seq<Consultation>,
    item: spec_fn(Consultation) -> Option<Item>,
    policy: MissingReference,
)
    ensures
        group_items(lines, item, policy) matches Some(g) ==> {
            &&& g.docs.len() == g.keys.len()
            &&& g.counts.len() == g.keys.len()
            &&& g.totals.len() == g.keys.len()
            &&& forall|i: int, j: int| 0 <= i < g.keys.len() && 0 <= j < g.keys.len() && g.keys[i] == g.keys[j] ==> i == j
        },
    decreases lines.len(),
{
    if lines.len() > 0 {
        lemma_one_report_per_addressee(lines.drop_last(), item, policy);
        if let Some(g) = group_items(lines.drop_last(), item, policy) {
            if let Some(it) = item(lines.last()) {
                let h = add_item(g, it);
                if !g.keys.contains(it.key) {
                    assert forall|i: int, j: int| 0 <= i < h.keys.len() && 0 <= j < h.keys.len() && h.keys[i] == h.keys[j] implies i == j by {
                        if i < g.keys.len() && j == g.keys.len() {
                            assert(g.keys[i] == it.key);
                        } else if j < g.keys.len() && i == g.keys.len() {
                            assert(g.keys[j] == it.key);
                        }
                    }
                } else {
                    let k = key_slot(g.keys, it.key);
                    assert(0 <= k < g.keys.len());
                }
            }
        }
    }
}

} // verus!
