//! The record store: members, providers, the service directory and the log of
//! consultations, with the constraints that every write is checked against.

use vstd::prelude::*;
use crate::date::{local_date_days_ago, parse_service_date, service_date_of, CalendarDate};
use crate::esend::{
    email_of, send_manager_report, send_member_report, send_provider_directory,
    send_provider_report, Category, Email, EmailView,
};
use crate::record::{Consultation, PersonInfo, MAX_SERVICE_CODE};
use crate::report::{
    by_service_date, consultation_summary, directory_line, directory_line_text, insert_ordered,
    lemma_insert_ordered_at, lemma_sort_push, member_block, member_block_text, person_header,
    person_header_text, provider_block, provider_block_text, provider_footer,
    provider_footer_text, sort_ordered, text_le, text_le_exec,
};

verus! {

/// Why a store operation failed.
#[derive(Clone, Copy, Debug, PartialEq, Eq, Structural)]
pub enum Error {
    /// A required text was empty.
    EmptyInput,
    /// A value lies outside the range its column allows.
    OutOfRange,
    /// The id is already taken in that collection.
    DuplicateId,
    /// No record has that id.
    NotFound,
    /// Today's date could not be read.
    Clock,
}

/// What a service directory entry holds.
pub struct ServiceView {
    pub id: u32,
    pub name: Seq<char>,
    pub fee: u64,
}

struct ServiceEntry {
    id: u32,
    name: String,
    fee: u64,
}

impl View for ServiceEntry {
    type V = ServiceView;

    closed spec fn view(&self) -> ServiceView {
        ServiceView { id: self.id, name: self.name@, fee: self.fee }
    }
}

/// What the store holds: persons with their active flag, the service
/// directory (fees in cents) and the consultations in the order they were
/// recorded.
pub struct DbView {
    pub members: Seq<(PersonInfo, bool)>,
    pub providers: Seq<(PersonInfo, bool)>,
    pub services: Seq<ServiceView>,
    pub consultations: Seq<Consultation>,
}

/// Some entry of `s` has the id `id`.
pub open spec fn has_person(s: Seq<(PersonInfo, bool)>, id: u32) -> bool {
    exists|i: int| 0 <= i < s.len() && s[i].0@.id == id
}

/// No two entries of `s` share an id.
pub open spec fn unique_persons(s: Seq<(PersonInfo, bool)>) -> bool {
    forall|i: int, j: int|
        0 <= i < s.len() && 0 <= j < s.len() && s[i].0@.id == s[j].0@.id ==> i == j
}

/// The position of the entry with id `id`.
pub open spec fn person_slot(s: Seq<(PersonInfo, bool)>, id: u32) -> int {
    choose|i: int| 0 <= i < s.len() && s[i].0@.id == id
}

/// The person with id `id`, if there is one.
pub open spec fn lookup_person(s: Seq<(PersonInfo, bool)>, id: u32) -> Option<PersonInfo> {
    if has_person(s, id) {
        Some(s[person_slot(s, id)].0)
    } else {
        None
    }
}

/// A person with id `id` is present and marked active.
pub open spec fn is_active_person(s: Seq<(PersonInfo, bool)>, id: u32) -> bool {
    has_person(s, id) && s[person_slot(s, id)].1
}

/// Some entry of the directory has the id `id`.
pub open spec fn has_service(s: Seq<ServiceView>, id: u32) -> bool {
    exists|i: int| 0 <= i < s.len() && s[i].id == id
}

/// The position of the directory entry with id `id`.
pub open spec fn service_slot(s: Seq<ServiceView>, id: u32) -> int {
    choose|i: int| 0 <= i < s.len() && s[i].id == id
}

/// The directory entry with id `id`, if there is one.
pub open spec fn lookup_service(s: Seq<ServiceView>, id: u32) -> Option<ServiceView> {
    if has_service(s, id) {
        Some(s[service_slot(s, id)])
    } else {
        None
    }
}

/// Every directory entry has a six-digit id and a name; no two share an id.
pub open spec fn valid_services(s: Seq<ServiceView>) -> bool {
    &&& forall|i: int| 0 <= i < s.len() ==> s[i].id <= MAX_SERVICE_CODE && s[i].name.len() > 0
    &&& forall|i: int, j: int| 0 <= i < s.len() && 0 <= j < s.len() && s[i].id == s[j].id ==> i == j
}

impl DbView {
    /// Ids are unique within each collection, and directory entries keep their
    /// limits.
    pub open spec fn wf(self) -> bool {
        &&& unique_persons(self.members)
        &&& unique_persons(self.providers)
        &&& valid_services(self.services)
    }
}

/// A store of members, providers, services and consultations.
pub struct DB {
    members: Vec<(PersonInfo, bool)>,
    providers: Vec<(PersonInfo, bool)>,
    services: Vec<ServiceEntry>,
    consultations: Vec<Consultation>,
}

impl View for DB {
    type V = DbView;

    closed spec fn view(&self) -> DbView {
        DbView {
            members: self.members@,
            providers: self.providers@,
            services: self.services@.map_values(|e: ServiceEntry| e@),
            consultations: self.consultations@,
        }
    }
}

/// Adds `person` to `table` unless its id is taken.
fn insert_person(table: &mut Vec<(PersonInfo, bool)>, person: &PersonInfo, active: bool) -> (r: Result<(), Error>)
    requires
        unique_persons(old(table)@),
    ensures
        unique_persons(final(table)@),
        has_person(old(table)@, person@.id) ==> r == Err::<(), Error>(Error::DuplicateId) && final(table)@ == old(table)@,
        !has_person(old(table)@, person@.id) ==> r == Ok::<(), Error>(()) && final(table)@ == old(table)@.push((*person, active)),
{
    match find_person(table, person.id()) {
        Some(_) => Err(Error::DuplicateId),
        None => {
            table.push((person.copied(), active));
            proof {
                let s = table@;
                assert forall|i: int, j: int|
                    0 <= i < s.len() && 0 <= j < s.len() && s[i].0@.id == s[j].0@.id implies i == j by {
                    if i < s.len() - 1 && j < s.len() - 1 {
                        assert(old(table)@[i] == s[i] && old(table)@[j] == s[j]);
                    } else if i < s.len() - 1 {
                        assert(old(table)@[i] == s[i]);
                    } else if j < s.len() - 1 {
                        assert(old(table)@[j] == s[j]);
                    }
                }
            }
            Ok(())
        }
    }
}

/// The position of the entry with id `id` in `table`.
fn find_person(table: &Vec<(PersonInfo, bool)>, id: u32) -> (r: Option<usize>)
    requires
        unique_persons(table@),
    ensures
        r is Some <==> has_person(table@, id),
        r matches Some(i) ==> i == person_slot(table@, id) && i < table@.len(),
{
    let mut i: usize = 0;
    while i < table.len()
        invariant
            unique_persons(table@),
            i <= table@.len(),
            forall|j: int| 0 <= j < i ==> table@[j].0@.id != id,
        decreases table@.len() - i,
    {
        if table[i].0.id() == id {
            proof {
                assert(has_person(table@, id));
                let k = person_slot(table@, id);
                assert(table@[k].0@.id == id);
            }
            return Some(i);
        }
        i = i + 1;
    }
    None
}

/// Removes the entry with id `id` from `table`.
fn delete_person(table: &mut Vec<(PersonInfo, bool)>, id: u32) -> (r: Result<(), Error>)
    requires
        unique_persons(old(table)@),
    ensures
        unique_persons(final(table)@),
        !has_person(old(table)@, id) ==> r == Err::<(), Error>(Error::NotFound) && final(table)@ == old(table)@,
        has_person(old(table)@, id) ==> r == Ok::<(), Error>(()) && final(table)@ == old(table)@.remove(person_slot(old(table)@, id)),
{
    match find_person(table, id) {
        None => Err(Error::NotFound),
        Some(i) => {
            table.remove(i);
            proof {
                let s = table@;
                let o = old(table)@;
                assert forall|a: int, b: int|
                    0 <= a < s.len() && 0 <= b < s.len() && s[a].0@.id == s[b].0@.id implies a == b by {
                    let a2 = if a < i { a } else { a + 1 };
                    let b2 = if b < i { b } else { b + 1 };
                    assert(s[a] == o[a2] && s[b] == o[b2]);
                }
            }
            Ok(())
        }
    }
}

impl DB {
    /// The collections keep their constraints.
    #[verifier::type_invariant]
    pub open spec fn inv(self) -> bool {
        self@.wf()
    }

    /// An empty store.
    pub fn new() -> (r: DB)
        ensures
            r@.members.len() == 0,
            r@.providers.len() == 0,
            r@.services.len() == 0,
            r@.consultations.len() == 0,
    {
        let r = DB { members: Vec::new(), providers: Vec::new(), services: Vec::new(), consultations: Vec::new() };
        assert(r@.services =~= Seq::<ServiceView>::empty());
        r
    }

    /// Adds a member, marked active.  Fails if the id is taken.
    pub fn add_member(&mut self, person: &PersonInfo) -> (r: Result<(), Error>)
        ensures
            has_person(old(self)@.members, person@.id) ==> r == Err::<(), Error>(Error::DuplicateId) && final(self)@ == old(self)@,
            !has_person(old(self)@.members, person@.id) ==> r == Ok::<(), Error>(()) && final(self)@ == (DbView {
                members: old(self)@.members.push((*person, true)),
                ..old(self)@
            }),
    {
        self.load_member(person, true)
    }

    /// Adds a provider, marked active.  Fails if the id is taken.
    pub fn add_provider(&mut self, person: &PersonInfo) -> (r: Result<(), Error>)
        ensures
            has_person(old(self)@.providers, person@.id) ==> r == Err::<(), Error>(Error::DuplicateId) && final(self)@ == old(self)@,
            !has_person(old(self)@.providers, person@.id) ==> r == Ok::<(), Error>(()) && final(self)@ == (DbView {
                providers: old(self)@.providers.push((*person, true)),
                ..old(self)@
            }),
    {
        self.load_provider(person, true)
    }

    /// Adds a member with the given active flag, as when reading back stored
    /// rows.  Fails if the id is taken.
    pub fn load_member(&mut self, person: &PersonInfo, is_active: bool) -> (r: Result<(), Error>)
        ensures
            has_person(old(self)@.members, person@.id) ==> r == Err::<(), Error>(Error::DuplicateId) && final(self)@ == old(self)@,
            !has_person(old(self)@.members, person@.id) ==> r == Ok::<(), Error>(()) && final(self)@ == (DbView {
                members: old(self)@.members.push((*person, is_active)),
                ..old(self)@
            }),
    {
        proof { use_type_invariant(&*self); }
        let mut table = Vec::new();
        std::mem::swap(&mut table, &mut self.members);
        let r = insert_person(&mut table, person, is_active);
        std::mem::swap(&mut table, &mut self.members);
        r
    }

    /// Adds a provider with the given active flag, as when reading back stored
    /// rows.  Fails if the id is taken.
    pub fn load_provider(&mut self, person: &PersonInfo, is_active: bool) -> (r: Result<(), Error>)
        ensures
            has_person(old(self)@.providers, person@.id) ==> r == Err::<(), Error>(Error::DuplicateId) && final(self)@ == old(self)@,
            !has_person(old(self)@.providers, person@.id) ==> r == Ok::<(), Error>(()) && final(self)@ == (DbView {
                providers: old(self)@.providers.push((*person, is_active)),
                ..old(self)@
            }),
    {
        proof { use_type_invariant(&*self); }
        let mut table = Vec::new();
        std::mem::swap(&mut table, &mut self.providers);
        let r = insert_person(&mut table, person, is_active);
        std::mem::swap(&mut table, &mut self.providers);
        r
    }

    /// Removes the member with id `id`.  Fails if there is none.
    pub fn remove_member(&mut self, id: u32) -> (r: Result<(), Error>)
        ensures
            !has_person(old(self)@.members, id) ==> r == Err::<(), Error>(Error::NotFound) && final(self)@ == old(self)@,
            has_person(old(self)@.members, id) ==> r == Ok::<(), Error>(()) && final(self)@ == (DbView {
                members: old(self)@.members.remove(person_slot(old(self)@.members, id)),
                ..old(self)@
            }),
    {
        proof { use_type_invariant(&*self); }
        let mut table = Vec::new();
        std::mem::swap(&mut table, &mut self.members);
        let r = delete_person(&mut table, id);
        std::mem::swap(&mut table, &mut self.members);
        r
    }

    /// Removes the provider with id `id`.  Fails if there is none.
    pub fn remove_provider(&mut self, id: u32) -> (r: Result<(), Error>)
        ensures
            !has_person(old(self)@.providers, id) ==> r == Err::<(), Error>(Error::NotFound) && final(self)@ == old(self)@,
            has_person(old(self)@.providers, id) ==> r == Ok::<(), Error>(()) && final(self)@ == (DbView {
                providers: old(self)@.providers.remove(person_slot(old(self)@.providers, id)),
                ..old(self)@
            }),
    {
        proof { use_type_invariant(&*self); }
        let mut table = Vec::new();
        std::mem::swap(&mut table, &mut self.providers);
        let r = delete_person(&mut table, id);
        std::mem::swap(&mut table, &mut self.providers);
        r
    }

    /// Appends a consultation record to the log.  A record is valid by
    /// construction, and its ids are not required to name stored persons, so
    /// this always succeeds.
    pub fn add_consultation_record(&mut self, consul: &Consultation) -> (r: Result<(), Error>)
        ensures
            r == Ok::<(), Error>(()),
            final(self)@ == (DbView { consultations: old(self)@.consultations.push(*consul), ..old(self)@ }),
    {
        proof { use_type_invariant(&*self); }
        let mut log = Vec::new();
        std::mem::swap(&mut log, &mut self.consultations);
        log.push(consul.copied());
        std::mem::swap(&mut log, &mut self.consultations);
        Ok(())
    }

    /// Adds a service to the directory with a fee in cents.  Fails on an empty
    /// name, on an id beyond six digits, and on an id that is taken, checked in
    /// that order.
    pub fn add_service(&mut self, id: u32, name: &str, fee: u64) -> (r: Result<(), Error>)
        ensures
            name@.len() == 0 ==> r == Err::<(), Error>(Error::EmptyInput),
            name@.len() > 0 && id > MAX_SERVICE_CODE ==> r == Err::<(), Error>(Error::OutOfRange),
            name@.len() > 0 && id <= MAX_SERVICE_CODE && has_service(old(self)@.services, id) ==> r == Err::<(), Error>(Error::DuplicateId),
            r is Err ==> final(self)@ == old(self)@,
            r is Ok <==> (name@.len() > 0 && id <= MAX_SERVICE_CODE && !has_service(old(self)@.services, id)),
            r is Ok ==> final(self)@ == (DbView {
                services: old(self)@.services.push(ServiceView { id, name: name@, fee }),
                ..old(self)@
            }),
    {
        proof { use_type_invariant(&*self); }
        if name.unicode_len() == 0 {
            return Err(Error::EmptyInput);
        }
        if id > MAX_SERVICE_CODE {
            return Err(Error::OutOfRange);
        }
        if self.find_service(id).is_some() {
            return Err(Error::DuplicateId);
        }
        let ghost old_services = self@.services;
        let mut table = Vec::new();
        std::mem::swap(&mut table, &mut self.services);
        table.push(ServiceEntry { id, name: String::from_str(name), fee });
        proof {
            let s = table@.map_values(|e: ServiceEntry| e@);
            assert(s =~= old_services.push(ServiceView { id, name: name@, fee }));
            assert forall|i: int, j: int| 0 <= i < s.len() && 0 <= j < s.len() && s[i].id == s[j].id implies i == j by {
                if i < s.len() - 1 && j < s.len() - 1 {
                    assert(old_services[i] == s[i] && old_services[j] == s[j]);
                } else if i < s.len() - 1 {
                    assert(old_services[i] == s[i]);
                } else if j < s.len() - 1 {
                    assert(old_services[j] == s[j]);
                }
            }
        }
        std::mem::swap(&mut table, &mut self.services);
        Ok(())
    }

    /// The position of the directory entry with id `id`.
    fn find_service(&self, id: u32) -> (r: Option<usize>)
        ensures
            r is Some <==> has_service(self@.services, id),
            r matches Some(i) ==> i == service_slot(self@.services, id) && i < self.services@.len(),
    {
        proof { use_type_invariant(self); }
        let ghost s = self@.services;
        let mut i: usize = 0;
        while i < self.services.len()
            invariant
                s == self@.services,
                s.len() == self.services@.len(),
                valid_services(s),
                i <= s.len(),
                forall|j: int| 0 <= j < i ==> s[j].id != id,
            decreases s.len() - i,
        {
            if self.services[i].id == id {
                proof {
                    assert(s[i as int].id == id);
                    assert(has_service(s, id));
                    let k = service_slot(s, id);
                    assert(s[k].id == id);
                }
                return Some(i);
            }
            i = i + 1;
        }
        None
    }

    /// Whether `id` names a member who is present and active.
    pub fn is_valid_member_id(&self, id: u32) -> (r: Result<bool, Error>)
        ensures
            r == Ok::<bool, Error>(is_active_person(self@.members, id)),
    {
        proof { use_type_invariant(self); }
        match find_person(&self.members, id) {
            Some(i) => Ok(self.members[i].1),
            None => Ok(false),
        }
    }

    /// Whether `id` names a provider who is present and active.
    pub fn is_valid_provider_id(&self, id: u32) -> (r: Result<bool, Error>)
        ensures
            r == Ok::<bool, Error>(is_active_person(self@.providers, id)),
    {
        proof { use_type_invariant(self); }
        match find_person(&self.providers, id) {
            Some(i) => Ok(self.providers[i].1),
            None => Ok(false),
        }
    }

    /// Whether `id` names a service of the directory.
    pub fn is_valid_service_id(&self, id: u32) -> (r: Result<bool, Error>)
        ensures
            r == Ok::<bool, Error>(has_service(self@.services, id)),
    {
        Ok(self.find_service(id).is_some())
    }

    /// The name of the service with id `id`.
    pub fn get_service_name(&self, id: u32) -> (r: Result<String, Error>)
        ensures
            match lookup_service(self@.services, id) {
                Some(s) => r matches Ok(n) && n@ == s.name,
                None => r == Err::<String, Error>(Error::NotFound),
            },
    {
        match self.find_service(id) {
            Some(i) => Ok(self.services[i].name.clone()),
            None => Err(Error::NotFound),
        }
    }

    /// The fee, in cents, of the service with id `id`.
    pub fn get_service_fee(&self, id: u32) -> (r: Result<u64, Error>)
        ensures
            match lookup_service(self@.services, id) {
                Some(s) => r == Ok::<u64, Error>(s.fee),
                None => r == Err::<u64, Error>(Error::NotFound),
            },
    {
        match self.find_service(id) {
            Some(i) => Ok(self.services[i].fee),
            None => Err(Error::NotFound),
        }
    }

    /// The member with id `id`, active or not.
    pub fn get_member_info(&self, id: u32) -> (r: Result<PersonInfo, Error>)
        ensures
            match lookup_person(self@.members, id) {
                Some(p) => r == Ok::<PersonInfo, Error>(p),
                None => r == Err::<PersonInfo, Error>(Error::NotFound),
            },
    {
        proof { use_type_invariant(self); }
        match find_person(&self.members, id) {
            Some(i) => Ok(self.members[i].0.copied()),
            None => Err(Error::NotFound),
        }
    }

    /// The provider with id `id`, active or not.
    pub fn get_provider_info(&self, id: u32) -> (r: Result<PersonInfo, Error>)
        ensures
            match lookup_person(self@.providers, id) {
                Some(p) => r == Ok::<PersonInfo, Error>(p),
                None => r == Err::<PersonInfo, Error>(Error::NotFound),
            },
    {
        proof { use_type_invariant(self); }
        match find_person(&self.providers, id) {
            Some(i) => Ok(self.providers[i].0.copied()),
            None => Err(Error::NotFound),
        }
    }
}

// ------------------------------------------------------------------ reports

/// The address that reports are sent from.
pub const SENDER: &'static str = "testing@chocan.com";

/// Member and provider reports cover the consultations of this many days back
/// from today, today included.
pub const REPORT_DATE_RANGE: u32 = 7;

/// The message views of a sequence of messages.
pub open spec fn views_of(v: Seq<Email>) -> Seq<EmailView> {
    v.map_values(|e: Email| e@)
}

/// A consultation whose service date is on or after `cutoff`.
pub open spec fn in_window(cutoff: CalendarDate) -> spec_fn(Consultation) -> bool {
    |c: Consultation| service_date_of(c@.service_date).ordinal() >= cutoff.ordinal()
}

/// The consultations that member and provider reports list: those of the
/// window, oldest service date first, records of one date in the order they
/// were recorded.
pub open spec fn report_lines(db: DbView, cutoff: CalendarDate) -> Seq<Consultation> {
    sort_ordered(db.consultations.filter(in_window(cutoff)), by_service_date())
}

/// What a report run does with a listed consultation that names a member,
/// provider or service that is not in the store.
#[derive(Clone, Copy, Debug, PartialEq, Eq, Structural)]
pub enum MissingReference {
    /// The run fails with `NotFound` and makes no report.
    Fail,
    /// The consultation is left out of the reports.
    Skip,
}

/// One listed consultation, resolved for the report it goes into: the id of the
/// addressee, the report it opens if it is the addressee's first, its block of
/// text, and its fee in cents.
pub struct Item {
    pub key: u32,
    pub head: EmailView,
    pub block: Seq<char>,
    pub fee: nat,
}

/// Reports under way: the addressees' ids in order of first appearance, and for
/// each its report so far, the number of its consultations and their fees.
pub struct Groups {
    pub keys: Seq<u32>,
    pub docs: Seq<EmailView>,
    pub counts: Seq<nat>,
    pub totals: Seq<nat>,
}

/// No reports yet.
pub open spec fn no_groups() -> Groups {
    Groups { keys: seq![], docs: seq![], counts: seq![], totals: seq![] }
}

/// `d` with `text` added to the end of its body.
pub open spec fn with_text(d: EmailView, text: Seq<char>) -> EmailView {
    EmailView { body: d.body + text, ..d }
}

/// The position of `key` among the addressees.
pub open spec fn key_slot(keys: Seq<u32>, key: u32) -> int {
    choose|j: int| 0 <= j < keys.len() && keys[j] == key
}

/// The reports after one more item: its block goes to the end of its
/// addressee's report, which it opens if the addressee has none yet.
pub open spec fn add_item(g: Groups, it: Item) -> Groups {
    if g.keys.contains(it.key) {
        let j = key_slot(g.keys, it.key);
        Groups {
            keys: g.keys,
            docs: g.docs.update(j, with_text(g.docs[j], it.block)),
            counts: g.counts.update(j, g.counts[j] + 1),
            totals: g.totals.update(j, g.totals[j] + it.fee),
        }
    } else {
        Groups {
            keys: g.keys.push(it.key),
            docs: g.docs.push(with_text(it.head, it.block)),
            counts: g.counts.push(1),
            totals: g.totals.push(it.fee),
        }
    }
}

/// The reports made of `lines`, each resolved by `item`.  A line that does not
/// resolve is left out under `MissingReference::Skip`, and under
/// `MissingReference::Fail` makes the result `None`.
pub open spec fn group_items(
    lines: Seq<Consultation>,
    item: spec_fn(Consultation) -> Option<Item>,
    policy: MissingReference,
) -> Option<Groups>
    decreases lines.len(),
{
    if lines.len() == 0 {
        Some(no_groups())
    } else {
        match group_items(lines.drop_last(), item, policy) {
            Some(g) => match item(lines.last()) {
                Some(it) => Some(add_item(g, it)),
                None => if policy == MissingReference::Skip {
                    Some(g)
                } else {
                    None
                },
            },
            None => None,
        }
    }
}

/// A consultation as a member report lists it: under its member, with the
/// provider's name and the service's name; `None` if one of the three is not
/// in the store.
pub open spec fn member_item(db: DbView) -> spec_fn(Consultation) -> Option<Item> {
    |c: Consultation|
        match (
            lookup_person(db.members, c@.member_id),
            lookup_person(db.providers, c@.provider_id),
            lookup_service(db.services, c@.service_code),
        ) {
            (Some(m), Some(p), Some(s)) => Some(
                Item {
                    key: c@.member_id,
                    head: email_of(
                        Category::Member,
                        m@.email,
                        "testing@chocan.com"@,
                        "Member Report for "@ + m@.name,
                        person_header("Member"@, m@),
                        m@.name,
                    ),
                    block: member_block(c@.service_date, p@.name, s.name),
                    fee: s.fee as nat,
                },
            ),
            _ => None,
        }
}

/// A consultation as a provider report lists it: under its provider, with the
/// member's name and number and the service's code and fee; `None` if one of
/// the three is not in the store.
pub open spec fn provider_item(db: DbView) -> spec_fn(Consultation) -> Option<Item> {
    |c: Consultation|
        match (
            lookup_person(db.members, c@.member_id),
            lookup_person(db.providers, c@.provider_id),
            lookup_service(db.services, c@.service_code),
        ) {
            (Some(m), Some(p), Some(s)) => Some(
                Item {
                    key: c@.provider_id,
                    head: email_of(
                        Category::Provider,
                        p@.email,
                        "testing@chocan.com"@,
                        "Provider Report for "@ + p@.name,
                        person_header("Provider"@, p@),
                        p@.name,
                    ),
                    block: provider_block(c@, m@.name, s.fee as nat),
                    fee: s.fee as nat,
                },
            ),
            _ => None,
        }
}

/// The member reports for the window from `cutoff`: one per member with a
/// listed consultation, in order of the member's first listed consultation;
/// `None` when, under `MissingReference::Fail`, a listed consultation names a
/// member, provider or service that is not in the store.
pub open spec fn member_reports_of(db: DbView, cutoff: CalendarDate, policy: MissingReference) -> Option<Seq<EmailView>> {
    match group_items(report_lines(db, cutoff), member_item(db), policy) {
        Some(g) => Some(g.docs),
        None => None,
    }
}

/// The provider reports for the window from `cutoff`: one per provider with a
/// listed consultation, in order of the provider's first listed consultation,
/// each closed by the count of its consultations and the sum of their fees;
/// `None` as for member reports.
pub open spec fn provider_reports_of(db: DbView, cutoff: CalendarDate, policy: MissingReference) -> Option<Seq<EmailView>> {
    match group_items(report_lines(db, cutoff), provider_item(db), policy) {
        Some(g) => Some(
            Seq::new(
                g.docs.len(),
                |i: int| with_text(g.docs[i], provider_footer(g.counts[i], g.totals[i])),
            ),
        ),
        None => None,
    }
}

/// The body of the manager report: every consultation, in the order recorded.
pub open spec fn manager_body(log: Seq<Consultation>) -> Seq<char>
    decreases log.len(),
{
    if log.len() == 0 {
        seq![]
    } else {
        manager_body(log.drop_last()) + consultation_summary(log.last()@) + "\n"@
    }
}

/// Services ordered by name.
pub open spec fn by_name() -> spec_fn(ServiceView, ServiceView) -> bool {
    |a: ServiceView, b: ServiceView| text_le(a.name, b.name)
}

/// The body of the service directory listing, one line per service in the
/// order given.
pub open spec fn directory_body(s: Seq<ServiceView>) -> Seq<char>
    decreases s.len(),
{
    if s.len() == 0 {
        seq![]
    } else {
        directory_body(s.drop_last()) + directory_line(s.last().name, s.last().id, s.last().fee as nat)
    }
}

proof fn lemma_groups_stay_none(
    lines: Seq<Consultation>,
    item: spec_fn(Consultation) -> Option<Item>,
    policy: MissingReference,
    k: int,
)
    requires
        0 <= k <= lines.len(),
        group_items(lines.subrange(0, k), item, policy) is None,
    ensures
        group_items(lines, item, policy) is None,
    decreases lines.len() - k,
{
    if k < lines.len() {
        assert(lines.subrange(0, k + 1).drop_last() =~= lines.subrange(0, k));
        lemma_groups_stay_none(lines, item, policy, k + 1);
    } else {
        assert(lines.subrange(0, k) =~= lines);
    }
}

/// The largest fee, in cents.
spec fn fee_bound() -> nat {
    0xFFFF_FFFF_FFFF_FFFF
}

/// Reports under way, held as values.
struct ReportGroups {
    keys: Vec<u32>,
    docs: Vec<Email>,
    counts: Vec<u64>,
    totals: Vec<u128>,
}

impl ReportGroups {
    spec fn view(&self) -> Groups {
        Groups {
            keys: self.keys@,
            docs: views_of(self.docs@),
            counts: self.counts@.map_values(|n: u64| n as nat),
            totals: self.totals@.map_values(|n: u128| n as nat),
        }
    }

    /// Ids are unique, the four columns line up, and after `n` items no count
    /// exceeds `n` and no total exceeds its count of largest fees.
    spec fn wf(&self, n: nat) -> bool {
        &&& self.docs@.len() == self.keys@.len()
        &&& self.counts@.len() == self.keys@.len()
        &&& self.totals@.len() == self.keys@.len()
        &&& forall|i: int, j: int| 0 <= i < self.keys@.len() && 0 <= j < self.keys@.len() && self.keys@[i] == self.keys@[j] ==> i == j
        &&& forall|j: int| 0 <= j < self.keys@.len() ==> self.counts@[j] <= n
        &&& forall|j: int| 0 <= j < self.keys@.len() ==> self.totals@[j] <= self.counts@[j] as nat * fee_bound()
    }

    proof fn lemma_wf_grows(&self, n: nat)
        requires
            self.wf(n),
        ensures
            self.wf(n + 1),
    {
    }

    fn new() -> (r: Self)
        ensures
            r.view() == no_groups(),
            r.wf(0),
    {
        let r = ReportGroups { keys: Vec::new(), docs: Vec::new(), counts: Vec::new(), totals: Vec::new() };
        assert(r.view().docs =~= seq![]);
        assert(r.view().counts =~= seq![]);
        assert(r.view().totals =~= seq![]);
        r
    }

    fn find(&self, key: u32) -> (r: Option<usize>)
        requires
            self.wf(0) || exists|n: nat| self.wf(n),
        ensures
            r is Some <==> self.keys@.contains(key),
            r matches Some(j) ==> j == key_slot(self.keys@, key) && j < self.keys@.len(),
    {
        let mut i: usize = 0;
        while i < self.keys.len()
            invariant
                i <= self.keys@.len(),
                forall|j: int| 0 <= j < i ==> self.keys@[j] != key,
                forall|a: int, b: int| 0 <= a < self.keys@.len() && 0 <= b < self.keys@.len() && self.keys@[a] == self.keys@[b] ==> a == b,
            decreases self.keys@.len() - i,
        {
            if self.keys[i] == key {
                proof {
                    assert(self.keys@[i as int] == key);
                    let k = key_slot(self.keys@, key);
                    assert(self.keys@[k] == key);
                }
                return Some(i);
            }
            i = i + 1;
        }
        None
    }

    /// Adds one item: `block` to the report of `key`, opened as `head` if
    /// there is none yet.
    fn add(&mut self, key: u32, head: Email, block: &str, fee: u64, Ghost(n): Ghost<nat>)
        requires
            old(self).wf(n),
            n < 0xFFFF_FFFF_FFFF_FFFF,
        ensures
            final(self).wf(n + 1),
            final(self).view() == add_item(old(self).view(), Item { key, head: head@, block: block@, fee: fee as nat }),
    {
        let ghost g = self.view();
        let ghost it = Item { key, head: head@, block: block@, fee: fee as nat };
        match self.find(key) {
            Some(j) => {
                let mut d = self.docs.remove(j);
                d.body.append(block);
                self.docs.insert(j, d);
                let c = self.counts[j];
                self.counts.set(j, c + 1);
                let t = self.totals[j];
                proof {
                    assert(t as nat <= c as nat * fee_bound());
                    assert(t as nat + fee as nat <= (c as nat + 1) * fee_bound()) by (nonlinear_arith)
                        requires t as nat <= c as nat * fee_bound(), fee as nat <= fee_bound();
                    assert((c as nat + 1) * fee_bound() <= (n + 1) * fee_bound()) by (nonlinear_arith)
                        requires c as nat <= n;
                    assert((n + 1) * fee_bound() < 0x1_0000_0000_0000_0000 * fee_bound()) by (nonlinear_arith)
                        requires n < 0xFFFF_FFFF_FFFF_FFFF;
                }
                self.totals.set(j, t + fee as u128);
                proof {
                    let h = self.view();
                    let e = add_item(g, it);
                    assert(h.docs =~= e.docs);
                    assert(h.counts =~= e.counts);
                    assert(h.totals =~= e.totals);
                    assert(h.keys =~= e.keys);
                }
            },
            None => {
                let mut d = head;
                d.body.append(block);
                self.keys.push(key);
                self.docs.push(d);
                self.counts.push(1);
                self.totals.push(fee as u128);
                proof {
                    let h = self.view();
                    let e = add_item(g, it);
                    assert(h.docs =~= e.docs);
                    assert(h.counts =~= e.counts);
                    assert(h.totals =~= e.totals);
                    assert(h.keys =~= e.keys);
                    let ks = self.keys@;
                    assert forall|a: int, b: int| 0 <= a < ks.len() && 0 <= b < ks.len() && ks[a] == ks[b] implies a == b by {
                        if a < ks.len() - 1 && b == ks.len() - 1 {
                            assert(g.keys.contains(key));
                        } else if b < ks.len() - 1 && a == ks.len() - 1 {
                            assert(g.keys.contains(key));
                        }
                    }
                }
            },
        }
        proof {
            let s = self;
            assert forall|j: int| 0 <= j < s.keys@.len() implies s.counts@[j] <= n + 1 && s.totals@[j] <= s.counts@[j] as nat * fee_bound() by {
                if j < old(self).keys@.len() && old(self).keys@[j] != key {
                    assert(s.counts@[j] == old(self).counts@[j]);
                    assert(s.totals@[j] == old(self).totals@[j]);
                }
            }
        }
    }
}

/// The chronological ordinal of a record's service date.
fn service_ordinal(c: &Consultation) -> (r: i64)
    ensures
        r == service_date_of(c@.service_date).ordinal(),
{
    proof { use_type_invariant(c); }
    match parse_service_date(c.service_date()) {
        Some(d) => d.ordinal_value(),
        None => {
            proof { assert(false); }
            0
        },
    }
}

/// Puts `x` into `out` as `insert_ordered` by service date does.
fn insert_by_date(out: &mut Vec<Consultation>, x: Consultation)
    ensures
        final(out)@ == insert_ordered(old(out)@, x, by_service_date()),
{
    let kx = service_ordinal(&x);
    let mut j = out.len();
    let mut placed = false;
    while !placed
        invariant
            j <= out@.len(),
            out@ == old(out)@,
            kx == service_date_of(x@.service_date).ordinal(),
            forall|k: int| j <= k < out@.len() ==> !(by_service_date())(out@[k], x),
            placed ==> (j == 0 || (by_service_date())(out@[j - 1], x)),
        decreases j + (if placed { 0int } else { 1int }),
    {
        if j == 0 {
            placed = true;
        } else {
            let kj = service_ordinal(&out[j - 1]);
            if kj <= kx {
                placed = true;
            } else {
                j = j - 1;
            }
        }
    }
    proof {
        lemma_insert_ordered_at(out@, x, by_service_date(), j as int);
    }
    out.insert(j, x);
}

impl ServiceEntry {
    fn copied(&self) -> (r: Self)
        ensures
            r@ == self@,
    {
        ServiceEntry { id: self.id, name: self.name.clone(), fee: self.fee }
    }
}

/// Puts `x` into `out` as `insert_ordered` by name does.
fn insert_by_name(out: &mut Vec<ServiceEntry>, x: ServiceEntry)
    ensures
        final(out)@.map_values(|e: ServiceEntry| e@) == insert_ordered(
            old(out)@.map_values(|e: ServiceEntry| e@),
            x@,
            by_name(),
        ),
{
    let ghost before = out@.map_values(|e: ServiceEntry| e@);
    let mut j = out.len();
    let mut placed = false;
    while !placed
        invariant
            j <= out@.len(),
            out@ == old(out)@,
            before == out@.map_values(|e: ServiceEntry| e@),
            forall|k: int| j <= k < before.len() ==> !(by_name())(before[k], x@),
            placed ==> (j == 0 || (by_name())(before[j - 1], x@)),
        decreases j + (if placed { 0int } else { 1int }),
    {
        if j == 0 {
            placed = true;
        } else if text_le_exec(out[j - 1].name.as_str(), x.name.as_str()) {
            placed = true;
        } else {
            j = j - 1;
        }
    }
    proof {
        lemma_insert_ordered_at(before, x@, by_name(), j as int);
    }
    out.insert(j, x);
    assert(out@.map_values(|e: ServiceEntry| e@) =~= before.insert(j as int, x@));
}

impl DB {
    /// The consultations that member and provider reports list for the window
    /// from `cutoff`, as values.
    fn report_lines(&self, cutoff: &CalendarDate) -> (r: Vec<Consultation>)
        ensures
            r@ == report_lines(self@, *cutoff),
    {
        let ghost log = self@.consultations;
        let ghost keep = in_window(*cutoff);
        let start = cutoff.ordinal_value();
        let mut out: Vec<Consultation> = Vec::new();
        let mut i: usize = 0;
        proof {
            reveal_with_fuel(Seq::filter, 1);
            assert(log.subrange(0, 0) =~= Seq::<Consultation>::empty());
        }
        while i < self.consultations.len()
            invariant
                log == self.consultations@,
                i <= log.len(),
                out@ == sort_ordered(log.subrange(0, i as int).filter(keep), by_service_date()),
                keep == in_window(*cutoff),
                start == cutoff.ordinal(),
            decreases log.len() - i,
        {
            let c = &self.consultations[i];
            let k = service_ordinal(c);
            proof {
                assert(log.subrange(0, i + 1).drop_last() =~= log.subrange(0, i as int));
                assert(log.subrange(0, i + 1).last() == log[i as int]);
                reveal_with_fuel(Seq::filter, 1);
            }
            if k >= start {
                proof {
                    lemma_sort_push(log.subrange(0, i as int).filter(keep), log[i as int], by_service_date());
                }
                insert_by_date(&mut out, c.copied());
            }
            i = i + 1;
        }
        assert(log.subrange(0, log.len() as int) =~= log);
        out
    }

    /// Reads the item that `member_item` gives for `c`.
    fn member_item_of(&self, c: &Consultation) -> (r: Result<(u32, Email, String, u64), Error>)
        ensures
            match (member_item(self@))(*c) {
                Some(it) => r matches Ok(v) && v.0 == it.key && v.1@ == it.head && v.2@ == it.block && v.3 as nat == it.fee,
                None => r is Err,
            },
    {
        let member = match self.get_member_info(c.member_id()) {
            Ok(m) => m,
            Err(e) => return Err(e),
        };
        let provider = match self.get_provider_info(c.provider_id()) {
            Ok(p) => p,
            Err(e) => return Err(e),
        };
        let service_name = match self.get_service_name(c.service_code()) {
            Ok(n) => n,
            Err(e) => return Err(e),
        };
        let fee = match self.get_service_fee(c.service_code()) {
            Ok(f) => f,
            Err(e) => return Err(e),
        };
        let mut subject = String::from_str("Member Report for ");
        subject.append(member.name());
        let head = send_member_report(
            member.email(),
            SENDER,
            subject.as_str(),
            person_header_text("Member", &member).as_str(),
            member.name(),
        );
        proof { reveal_strlit("testing@chocan.com"); }
        let block = member_block_text(c.service_date(), provider.name(), service_name.as_str());
        Ok((c.member_id(), head, block, fee))
    }

    /// Reads the item that `provider_item` gives for `c`.
    fn provider_item_of(&self, c: &Consultation) -> (r: Result<(u32, Email, String, u64), Error>)
        ensures
            match (provider_item(self@))(*c) {
                Some(it) => r matches Ok(v) && v.0 == it.key && v.1@ == it.head && v.2@ == it.block && v.3 as nat == it.fee,
                None => r is Err,
            },
    {
        let member = match self.get_member_info(c.member_id()) {
            Ok(m) => m,
            Err(e) => return Err(e),
        };
        let provider = match self.get_provider_info(c.provider_id()) {
            Ok(p) => p,
            Err(e) => return Err(e),
        };
        let fee = match self.get_service_fee(c.service_code()) {
            Ok(f) => f,
            Err(e) => return Err(e),
        };
        let mut subject = String::from_str("Provider Report for ");
        subject.append(provider.name());
        let head = send_provider_report(
            provider.email(),
            SENDER,
            subject.as_str(),
            person_header_text("Provider", &provider).as_str(),
            provider.name(),
        );
        proof { reveal_strlit("testing@chocan.com"); }
        let block = provider_block_text(c, member.name(), fee);
        Ok((c.provider_id(), head, block, fee))
    }

    /// Groups the listed consultations of the window from `cutoff`, each
    /// resolved as a member report (`for_members`) or a provider report lists
    /// it, a missing reference handled by `policy`.
    fn group_lines(&self, cutoff: &CalendarDate, for_members: bool, policy: MissingReference) -> (r: Result<ReportGroups, Error>)
        ensures
            ({
                let item = if for_members { member_item(self@) } else { provider_item(self@) };
                match group_items(report_lines(self@, *cutoff), item, policy) {
                    Some(g) => r matches Ok(v) && v.view() == g && v.docs@.len() == v.counts@.len()
                        && v.docs@.len() == v.totals@.len(),
                    None => r == Err::<ReportGroups, Error>(Error::NotFound),
                }
            }),
    {
        let lines = self.report_lines(cutoff);
        let ghost item = if for_members { member_item(self@) } else { provider_item(self@) };
        let mut groups = ReportGroups::new();
        let mut i: usize = 0;
        assert(lines@.subrange(0, 0) =~= Seq::<Consultation>::empty());
        while i < lines.len()
            invariant
                i <= lines@.len(),
                lines@ == report_lines(self@, *cutoff),
                item == (if for_members { member_item(self@) } else { provider_item(self@) }),
                groups.wf(i as nat),
                group_items(lines@.subrange(0, i as int), item, policy) == Some(groups.view()),
            decreases lines@.len() - i,
        {
            let c = &lines[i];
            let resolved = if for_members { self.member_item_of(c) } else { self.provider_item_of(c) };
            proof {
                assert(lines@.subrange(0, i + 1).drop_last() =~= lines@.subrange(0, i as int));
                assert(lines@.subrange(0, i + 1).last() == lines@[i as int]);
            }
            match resolved {
                Ok((key, head, block, fee)) => {
                    groups.add(key, head, block.as_str(), fee, Ghost(i as nat));
                },
                Err(_) => {
                    if policy == MissingReference::Fail {
                        proof { lemma_groups_stay_none(lines@, item, policy, i + 1); }
                        return Err(Error::NotFound);
                    }
                    proof { groups.lemma_wf_grows(i as nat); }
                },
            }
            i = i + 1;
        }
        assert(lines@.subrange(0, lines@.len() as int) =~= lines@);
        Ok(groups)
    }

    /// The member reports for the window from `cutoff`, one message per
    /// member with a consultation in it.  A listed consultation that names a
    /// member, provider or service that is not in the store is left out under
    /// `MissingReference::Skip`; under `MissingReference::Fail` the run fails
    /// with `NotFound` and makes no report.
    pub fn member_reports(&self, cutoff: &CalendarDate, policy: MissingReference) -> (r: Result<Vec<Email>, Error>)
        ensures
            match member_reports_of(self@, *cutoff, policy) {
                Some(d) => r matches Ok(v) && views_of(v@) == d,
                None => r == Err::<Vec<Email>, Error>(Error::NotFound),
            },
    {
        match self.group_lines(cutoff, true, policy) {
            Ok(g) => Ok(g.docs),
            Err(e) => Err(e),
        }
    }

    /// The provider reports for the window from `cutoff`, one message per
    /// provider with a consultation in it, each closed by the number of its
    /// consultations and their total fee.  A missing reference is handled as
    /// in `member_reports`.
    pub fn provider_reports(&self, cutoff: &CalendarDate, policy: MissingReference) -> (r: Result<Vec<Email>, Error>)
        ensures
            match provider_reports_of(self@, *cutoff, policy) {
                Some(d) => r matches Ok(v) && views_of(v@) == d,
                None => r == Err::<Vec<Email>, Error>(Error::NotFound),
            },
    {
        let g = match self.group_lines(cutoff, false, policy) {
            Ok(g) => g,
            Err(e) => return Err(e),
        };
        let ghost gv = g.view();
        let ghost want = Seq::new(
            gv.docs.len(),
            |i: int| with_text(gv.docs[i], provider_footer(gv.counts[i], gv.totals[i])),
        );
        let ReportGroups { keys, docs, counts, totals } = g;
        let mut docs = docs;
        let mut j: usize = 0;
        while j < docs.len()
            invariant
                docs@.len() == gv.docs.len(),
                want.len() == gv.docs.len(),
                counts@.len() == gv.docs.len(),
                totals@.len() == gv.docs.len(),
                gv.counts == counts@.map_values(|n: u64| n as nat),
                gv.totals == totals@.map_values(|n: u128| n as nat),
                want == Seq::new(
                    gv.docs.len(),
                    |i: int| with_text(gv.docs[i], provider_footer(gv.counts[i], gv.totals[i])),
                ),
                j <= docs@.len(),
                forall|k: int| 0 <= k < j ==> docs@[k]@ == want[k],
                forall|k: int| j <= k < docs@.len() ==> docs@[k]@ == gv.docs[k],
            decreases docs@.len() - j,
        {
            let footer = provider_footer_text(counts[j], totals[j]);
            let ghost before = docs@;
            let mut d = docs.remove(j);
            d.body.append(footer.as_str());
            docs.insert(j, d);
            proof {
                assert(docs@ =~= before.update(j as int, d));
                assert(gv.counts[j as int] == counts@[j as int] as nat);
                assert(gv.totals[j as int] == totals@[j as int] as nat);
                assert(d@ =~= want[j as int]);
            }
            j = j + 1;
        }
        assert(views_of(docs@) =~= want);
        Ok(docs)
    }

    /// Member reports for the last `REPORT_DATE_RANGE` days, as of today's
    /// date on this machine, ready for delivery.  A missing reference fails the
    /// run.
    pub fn send_member_reports(&self) -> (r: Result<Vec<Email>, Error>)
        ensures
            r matches Ok(v) ==> exists|cutoff: CalendarDate|
                cutoff.wf() && member_reports_of(self@, cutoff, MissingReference::Fail) == Some(views_of(v@)),
            r matches Err(e) ==> e == Error::Clock || (e == Error::NotFound && exists|cutoff: CalendarDate|
                cutoff.wf() && member_reports_of(self@, cutoff, MissingReference::Fail) is None),
    {
        match local_date_days_ago(REPORT_DATE_RANGE) {
            Some(cutoff) => self.member_reports(&cutoff, MissingReference::Fail),
            None => Err(Error::Clock),
        }
    }

    /// Provider reports for the last `REPORT_DATE_RANGE` days, as of today's
    /// date on this machine, ready for delivery.  A missing reference fails the
    /// run.
    pub fn send_provider_reports(&self) -> (r: Result<Vec<Email>, Error>)
        ensures
            r matches Ok(v) ==> exists|cutoff: CalendarDate|
                cutoff.wf() && provider_reports_of(self@, cutoff, MissingReference::Fail) == Some(views_of(v@)),
            r matches Err(e) ==> e == Error::Clock || (e == Error::NotFound && exists|cutoff: CalendarDate|
                cutoff.wf() && provider_reports_of(self@, cutoff, MissingReference::Fail) is None),
    {
        match local_date_days_ago(REPORT_DATE_RANGE) {
            Some(cutoff) => self.provider_reports(&cutoff, MissingReference::Fail),
            None => Err(Error::Clock),
        }
    }

    /// The manager report: every consultation recorded, with no window,
    /// addressed to the manager.
    pub fn send_manager_report(&self) -> (r: Result<Email, Error>)
        ensures
            r matches Ok(e) && e@ == email_of(
                Category::Manager,
                "manager@pdx.edu"@,
                "testing@chocan.com"@,
                "Manager report"@,
                manager_body(self@.consultations),
                "ManagerName"@,
            ),
    {
        let ghost log = self@.consultations;
        let mut body = String::new();
        let mut i: usize = 0;
        assert(log.subrange(0, 0) =~= Seq::<Consultation>::empty());
        while i < self.consultations.len()
            invariant
                log == self.consultations@,
                i <= log.len(),
                body@ == manager_body(log.subrange(0, i as int)),
            decreases log.len() - i,
        {
            proof {
                assert(log.subrange(0, i + 1).drop_last() =~= log.subrange(0, i as int));
                assert(log.subrange(0, i + 1).last() == log[i as int]);
            }
            body.append(self.consultations[i].summary().as_str());
            body.append("\n");
            i = i + 1;
        }
        assert(log.subrange(0, log.len() as int) =~= log);
        proof { reveal_strlit("testing@chocan.com"); }
        Ok(send_manager_report("manager@pdx.edu", SENDER, "Manager report", body.as_str(), "ManagerName"))
    }

    /// The service directory listing, ordered by name, addressed to `email`.
    pub fn send_provider_directory(&self, email: &str) -> (r: Result<Email, Error>)
        ensures
            r matches Ok(e) && e@ == email_of(
                Category::Directory,
                email@,
                "testing@chocan.com"@,
                "Provider Directory"@,
                directory_body(sort_ordered(self@.services, by_name())),
                "ProviderName"@,
            ),
    {
        let ghost all = self@.services;
        let mut sorted: Vec<ServiceEntry> = Vec::new();
        let mut i: usize = 0;
        assert(all.subrange(0, 0) =~= Seq::<ServiceView>::empty());
        assert(sorted@.map_values(|e: ServiceEntry| e@) =~= Seq::<ServiceView>::empty());
        while i < self.services.len()
            invariant
                all == self.services@.map_values(|e: ServiceEntry| e@),
                i <= all.len(),
                sorted@.map_values(|e: ServiceEntry| e@) == sort_ordered(all.subrange(0, i as int), by_name()),
            decreases all.len() - i,
        {
            proof {
                assert(all.subrange(0, i + 1) =~= all.subrange(0, i as int).push(all[i as int]));
                lemma_sort_push(all.subrange(0, i as int), all[i as int], by_name());
            }
            insert_by_name(&mut sorted, self.services[i].copied());
            i = i + 1;
        }
        assert(all.subrange(0, all.len() as int) =~= all);
        let ghost listed = sorted@.map_values(|e: ServiceEntry| e@);
        let mut body = String::new();
        let mut j: usize = 0;
        assert(listed.subrange(0, 0) =~= Seq::<ServiceView>::empty());
        while j < sorted.len()
            invariant
                listed == sorted@.map_values(|e: ServiceEntry| e@),
                j <= listed.len(),
                body@ == directory_body(listed.subrange(0, j as int)),
            decreases listed.len() - j,
        {
            proof {
                assert(listed.subrange(0, j + 1).drop_last() =~= listed.subrange(0, j as int));
                assert(listed.subrange(0, j + 1).last() == listed[j as int]);
            }
            let e = &sorted[j];
            body.append(directory_line_text(e.name.as_str(), e.id, e.fee).as_str());
            j = j + 1;
        }
        assert(listed.subrange(0, listed.len() as int) =~= listed);
        proof { reveal_strlit("testing@chocan.com"); }
        Ok(send_provider_directory(email, SENDER, "Provider Directory", body.as_str(), "ProviderName"))
    }
}

} // verus!
