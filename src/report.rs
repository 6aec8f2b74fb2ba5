//! The text of reports, and the stable ordering that reports list records in.

use vstd::prelude::*;
use crate::date::service_date_of;
use crate::record::{Consultation, ConsultationView, PersonInfo, PersonView};
use crate::text::{cents_text, decimal, push_cents, push_decimal};

verus! {

/// The line that separates the blocks of a report.
pub open spec fn separator() -> Seq<char> {
    "----------------------------------------\n"@
}

/// The head of a report on a person: name, number and address, each line
/// starting with the person's role.
pub open spec fn person_header(role: Seq<char>, p: PersonView) -> Seq<char> {
    role + " name: "@ + p.name + "\n"@
        + role + " number: "@ + decimal(p.id as nat) + "\n"@
        + role + " street address: "@ + p.location.address + "\n"@
        + role + " city: "@ + p.location.city + "\n"@
        + role + " state: "@ + p.location.state + "\n"@
        + role + " zip code: "@ + decimal(p.location.zipcode as nat) + "\n"@
}

/// One consultation in a member report.
pub open spec fn member_block(service_date: Seq<char>, provider_name: Seq<char>, service_name: Seq<char>) -> Seq<char> {
    separator()
        + "Date of service: "@ + service_date + "\n"@
        + "Provider name: "@ + provider_name + "\n"@
        + "Service name: "@ + service_name + "\n"@
}

/// One consultation in a provider report, with the fee in cents.
pub open spec fn provider_block(c: ConsultationView, member_name: Seq<char>, fee: nat) -> Seq<char> {
    separator()
        + "Date of service: "@ + c.service_date + "\n"@
        + "Date and time data were received by the computer: "@ + c.curr_date + "\n"@
        + "Member name: "@ + member_name + "\n"@
        + "Member number: "@ + decimal(c.member_id as nat) + "\n"@
        + "Service code: "@ + decimal(c.service_code as nat) + "\n"@
        + "Fee: "@ + cents_text(fee) + "\n"@
}

/// The closing lines of a provider report: how many consultations, and their
/// fees summed, in cents.
pub open spec fn provider_footer(count: nat, total: nat) -> Seq<char> {
    separator()
        + "Total consultations: "@ + decimal(count) + "\n"@
        + "Total fee: "@ + cents_text(total) + "\n"@
}

/// One consultation in the manager report.
pub open spec fn consultation_summary(c: ConsultationView) -> Seq<char> {
    "Current date-time: "@ + c.curr_date + "\n"@
        + "Service date: "@ + c.service_date + "\n"@
        + "Provider ID: "@ + decimal(c.provider_id as nat) + "\n"@
        + "Member ID: "@ + decimal(c.member_id as nat) + "\n"@
        + "Service code: "@ + decimal(c.service_code as nat) + "\n"@
        + "Comments: "@ + c.comments + "\n"@
}

/// One entry of the service directory listing, with the fee in cents.
pub open spec fn directory_line(name: Seq<char>, id: u32, fee: nat) -> Seq<char> {
    name + ", ID: "@ + decimal(id as nat) + ", Fee: "@ + cents_text(fee) + "\n"@
}

/// The head of a report on `p` in the role `role`.
pub fn person_header_text(role: &str, p: &PersonInfo) -> (r: String)
    ensures
        r@ == person_header(role@, p@),
{
    let l = p.location();
    let mut s = String::from_str(role);
    s.append(" name: ");
    s.append(p.name());
    s.append("\n");
    s.append(role);
    s.append(" number: ");
    push_decimal(&mut s, p.id() as u128);
    s.append("\n");
    s.append(role);
    s.append(" street address: ");
    s.append(l.address());
    s.append("\n");
    s.append(role);
    s.append(" city: ");
    s.append(l.city());
    s.append("\n");
    s.append(role);
    s.append(" state: ");
    s.append(l.state());
    s.append("\n");
    s.append(role);
    s.append(" zip code: ");
    push_decimal(&mut s, l.zipcode() as u128);
    s.append("\n");
    s
}

/// The text of one consultation in a member report.
pub fn member_block_text(service_date: &str, provider_name: &str, service_name: &str) -> (r: String)
    ensures
        r@ == member_block(service_date@, provider_name@, service_name@),
{
    let mut s = String::from_str("----------------------------------------\n");
    s.append("Date of service: ");
    s.append(service_date);
    s.append("\n");
    s.append("Provider name: ");
    s.append(provider_name);
    s.append("\n");
    s.append("Service name: ");
    s.append(service_name);
    s.append("\n");
    s
}

/// The text of one consultation in a provider report.
pub fn provider_block_text(c: &Consultation, member_name: &str, fee: u64) -> (r: String)
    ensures
        r@ == provider_block(c@, member_name@, fee as nat),
{
    let mut s = String::from_str("----------------------------------------\n");
    s.append("Date of service: ");
    s.append(c.service_date());
    s.append("\n");
    s.append("Date and time data were received by the computer: ");
    s.append(c.curr_date());
    s.append("\n");
    s.append("Member name: ");
    s.append(member_name);
    s.append("\n");
    s.append("Member number: ");
    push_decimal(&mut s, c.member_id() as u128);
    s.append("\n");
    s.append("Service code: ");
    push_decimal(&mut s, c.service_code() as u128);
    s.append("\n");
    s.append("Fee: ");
    push_cents(&mut s, fee as u128);
    s.append("\n");
    s
}

/// The closing lines of a provider report.
pub fn provider_footer_text(count: u64, total: u128) -> (r: String)
    ensures
        r@ == provider_footer(count as nat, total as nat),
{
    let mut s = String::from_str("----------------------------------------\n");
    s.append("Total consultations: ");
    push_decimal(&mut s, count as u128);
    s.append("\n");
    s.append("Total fee: ");
    push_cents(&mut s, total);
    s.append("\n");
    s
}

impl Consultation {
    /// The text of this record in the manager report.
    pub fn summary(&self) -> (r: String)
        ensures
            r@ == consultation_summary(self@),
    {
        let mut s = String::from_str("Current date-time: ");
        s.append(self.curr_date());
        s.append("\n");
        s.append("Service date: ");
        s.append(self.service_date());
        s.append("\n");
        s.append("Provider ID: ");
        push_decimal(&mut s, self.provider_id() as u128);
        s.append("\n");
        s.append("Member ID: ");
        push_decimal(&mut s, self.member_id() as u128);
        s.append("\n");
        s.append("Service code: ");
        push_decimal(&mut s, self.service_code() as u128);
        s.append("\n");
        s.append("Comments: ");
        s.append(self.comments());
        s.append("\n");
        s
    }
}

/// The text of one entry of the service directory listing.
pub fn directory_line_text(name: &str, id: u32, fee: u64) -> (r: String)
    ensures
        r@ == directory_line(name@, id, fee as nat),
{
    let mut s = String::from_str(name);
    s.append(", ID: ");
    push_decimal(&mut s, id as u128);
    s.append(", Fee: ");
    push_cents(&mut s, fee as u128);
    s.append("\n");
    s
}

// ----------------------------------------------------------------- ordering

/// `x` put into `s` right after the last item that may precede it by `le`,
/// or first if there is none.  On a sequence ordered by `le` this keeps it
/// ordered, and places `x` after the items equal to it.
pub open spec fn insert_ordered<A>(s: Seq<A>, x: A, le: spec_fn(A, A) -> bool) -> Seq<A>
    decreases s.len(),
{
    if s.len() == 0 || le(s.last(), x) {
        s.push(x)
    } else {
        insert_ordered(s.drop_last(), x, le).push(s.last())
    }
}

/// `s` ordered by `le`, items that `le` does not tell apart kept in the order
/// they came in (a stable insertion sort).
pub open spec fn sort_ordered<A>(s: Seq<A>, le: spec_fn(A, A) -> bool) -> Seq<A>
    decreases s.len(),
{
    if s.len() == 0 {
        s
    } else {
        insert_ordered(sort_ordered(s.drop_last(), le), s.last(), le)
    }
}

/// Inserting at `j`, where every item from `j` on may not precede `x` and the
/// one before `j` may, is what `insert_ordered` does.
pub proof fn lemma_insert_ordered_at<A>(s: Seq<A>, x: A, le: spec_fn(A, A) -> bool, j: int)
    requires
        0 <= j <= s.len(),
        forall|k: int| j <= k < s.len() ==> !le(s[k], x),
        j == 0 || le(s[j - 1], x),
    ensures
        insert_ordered(s, x, le) == s.insert(j, x),
    decreases s.len(),
{
    if s.len() == j {
        assert(s.insert(j, x) =~= s.push(x));
    } else {
        assert(!le(s.last(), x));
        lemma_insert_ordered_at(s.drop_last(), x, le, j);
        assert(s.drop_last().insert(j, x).push(s.last()) =~= s.insert(j, x));
    }
}

/// One step of sorting: sorting a sequence with one more item inserts it into
/// the sorted rest.
pub proof fn lemma_sort_push<A>(s: Seq<A>, x: A, le: spec_fn(A, A) -> bool)
    ensures
        sort_ordered(s.push(x), le) == insert_ordered(sort_ordered(s, le), x, le),
{
    assert(s.push(x).drop_last() =~= s);
}

/// Consultations ordered by service date, oldest first.
pub open spec fn by_service_date() -> spec_fn(Consultation, Consultation) -> bool {
    |a: Consultation, b: Consultation|
        service_date_of(a@.service_date).ordinal() <= service_date_of(b@.service_date).ordinal()
}

/// `a` comes before `b`, or equals it, character by character.
pub open spec fn text_le(a: Seq<char>, b: Seq<char>) -> bool
    decreases a.len(),
{
    if a.len() == 0 {
        true
    } else if b.len() == 0 {
        false
    } else if a[0] != b[0] {
        a[0] < b[0]
    } else {
        text_le(a.skip(1), b.skip(1))
    }
}

/// Whether `a` comes before `b`, or equals it, character by character.
pub fn text_le_exec(a: &str, b: &str) -> (r: bool)
    ensures
        r == text_le(a@, b@),
{
    let na = a.unicode_len();
    let nb = b.unicode_len();
    let mut i: usize = 0;
    assert(a@.skip(0) =~= a@ && b@.skip(0) =~= b@);
    while i < na && i < nb
        invariant
            na == a@.len(),
            nb == b@.len(),
            i <= na && i <= nb,
            text_le(a@, b@) == text_le(a@.skip(i as int), b@.skip(i as int)),
        decreases na - i,
    {
        let ca = a.get_char(i);
        let cb = b.get_char(i);
        proof {
            assert(a@.skip(i as int)[0] == ca);
            assert(b@.skip(i as int)[0] == cb);
        }
        if ca != cb {
            return ca < cb;
        }
        proof {
            assert(a@.skip(i as int).skip(1) =~= a@.skip(i + 1));
            assert(b@.skip(i as int).skip(1) =~= b@.skip(i + 1));
        }
        i = i + 1;
    }
    i == na
}

} // verus!
