//! The records that the store keeps: locations, persons (members and
//! providers) and consultations, each built only through a validating
//! constructor.

use vstd::prelude::*;
use crate::date::{is_service_date, parse_service_date};
use crate::text::{decimal, push_decimal};

verus! {

/// Longest name of a person, in characters.
pub const MAX_NAME_SIZE: usize = 25;
/// Largest member id: nine digits.
pub const MAX_MEMBER_ID: u32 = 999999999;
/// Largest provider id: nine digits.
pub const MAX_PROVIDER_ID: u32 = 999999999;
/// Longest street address, in characters.
pub const MAX_ADDRESS_SIZE: usize = 25;
/// Longest city name, in characters.
pub const MAX_CITY_SIZE: usize = 14;
/// Length of a state code, in characters.
pub const STATE_SIZE: usize = 2;
/// Largest zip code: five digits.
pub const MAX_ZIPCODE: u32 = 99999;
/// Length of a capture time stamp `MM-DD-YYYY HH:MM:SS`.
pub const DATE_TIME_SIZE: usize = 19;
/// Length of a service date `MM-DD-YYYY`.
pub const SERVICE_DATE_SIZE: usize = 10;
/// Largest service code: six digits.
pub const MAX_SERVICE_CODE: u32 = 999999;
/// Comments hold fewer characters than this.
pub const MAX_COMMENT_SIZE: usize = 100;

/// `s` holds the character `c`.
pub open spec fn has_char(s: Seq<char>, c: char) -> bool {
    exists|i: int| 0 <= i < s.len() && s[i] == c
}

/// Whether `s` holds `c`.
pub fn contains_char(s: &str, c: char) -> (r: bool)
    ensures
        r == has_char(s@, c),
{
    let n = s.unicode_len();
    let mut i: usize = 0;
    while i < n
        invariant
            n == s@.len(),
            i <= n,
            forall|j: int| 0 <= j < i ==> s@[j] != c,
        decreases n - i,
    {
        if s.get_char(i) == c {
            return true;
        }
        i = i + 1;
    }
    false
}

/// The message of a rejection: the field, the rule it broke, and its value.
pub fn rejection(field: &str, rule: &str, value: &str) -> (r: String)
    ensures
        r@ == field@ + rule@ + value@,
{
    let mut m = String::from_str(field);
    m.append(rule);
    m.append(value);
    m
}

/// The message of a rejection whose value is a number.
pub fn number_rejection(field: &str, rule: &str, value: u32) -> (r: String)
    ensures
        r@ == field@ + rule@ + decimal(value as nat),
{
    let mut m = String::from_str(field);
    m.append(rule);
    push_decimal(&mut m, value as u128);
    m
}

// ---------------------------------------------------------------- locations

/// What a location holds.
pub struct LocationView {
    pub address: Seq<char>,
    pub city: Seq<char>,
    pub state: Seq<char>,
    pub zipcode: u32,
}

/// The limits that a location keeps.
pub open spec fn valid_location(l: LocationView) -> bool {
    &&& l.address.len() <= MAX_ADDRESS_SIZE
    &&& l.city.len() <= MAX_CITY_SIZE
    &&& l.state.len() == STATE_SIZE
    &&& l.zipcode <= MAX_ZIPCODE
}

/// Why a location with these fields is rejected; meaningful only where
/// `valid_location` fails.  The first broken limit, in the order address, city,
/// state, zip code, is named.
pub open spec fn location_rejection(l: LocationView) -> Seq<char> {
    if l.address.len() > MAX_ADDRESS_SIZE {
        "address"@ + " must be less than or equal to 25 characters: "@ + l.address
    } else if l.city.len() > MAX_CITY_SIZE {
        "city"@ + " must be less than or equal to 14 characters: "@ + l.city
    } else if l.state.len() != STATE_SIZE {
        "state"@ + " must be equal to 2 characters: "@ + l.state
    } else {
        "zipcode"@ + " must be less than or equal to 99999: "@ + decimal(l.zipcode as nat)
    }
}

/// Where a person lives.
#[derive(Debug)]
pub struct LocationInfo {
    address: String,
    city: String,
    state: String,
    zipcode: u32,
}

impl View for LocationInfo {
    type V = LocationView;

    closed spec fn view(&self) -> LocationView {
        LocationView {
            address: self.address@,
            city: self.city@,
            state: self.state@,
            zipcode: self.zipcode,
        }
    }
}

impl LocationInfo {
    /// Every location keeps its limits.
    #[verifier::type_invariant]
    pub open spec fn inv(self) -> bool {
        valid_location(self@)
    }

    /// Creates a location, or names the first field that breaks its limit.
    pub fn new(address: &str, city: &str, state: &str, zipcode: u32) -> (r: Result<Self, String>)
        ensures
            ({
                let l = LocationView { address: address@, city: city@, state: state@, zipcode };
                match r {
                    Ok(loc) => valid_location(l) && loc@ == l,
                    Err(m) => !valid_location(l) && m@ == location_rejection(l),
                }
            }),
    {
        if address.unicode_len() > MAX_ADDRESS_SIZE {
            return Err(rejection("address", " must be less than or equal to 25 characters: ", address));
        }
        if city.unicode_len() > MAX_CITY_SIZE {
            return Err(rejection("city", " must be less than or equal to 14 characters: ", city));
        }
        if state.unicode_len() != STATE_SIZE {
            return Err(rejection("state", " must be equal to 2 characters: ", state));
        }
        if zipcode > MAX_ZIPCODE {
            return Err(number_rejection("zipcode", " must be less than or equal to 99999: ", zipcode));
        }
        Ok(LocationInfo {
            address: String::from_str(address),
            city: String::from_str(city),
            state: String::from_str(state),
            zipcode,
        })
    }

    /// A copy of this location.
    pub fn copied(&self) -> (r: Self)
        ensures
            r == *self,
            r@ == self@,
    {
        proof { use_type_invariant(self); }
        LocationInfo {
            address: self.address.clone(),
            city: self.city.clone(),
            state: self.state.clone(),
            zipcode: self.zipcode,
        }
    }

    pub fn address(&self) -> (r: &str)
        ensures
            r@ == self@.address,
    {
        self.address.as_str()
    }

    pub fn city(&self) -> (r: &str)
        ensures
            r@ == self@.city,
    {
        self.city.as_str()
    }

    pub fn state(&self) -> (r: &str)
        ensures
            r@ == self@.state,
    {
        self.state.as_str()
    }

    pub fn zipcode(&self) -> (r: u32)
        ensures
            r == self@.zipcode,
    {
        self.zipcode
    }
}

// ------------------------------------------------------------------ persons

/// What a person holds.
pub struct PersonView {
    pub id: u32,
    pub name: Seq<char>,
    pub location: LocationView,
    pub email: Seq<char>,
}

/// The limits on a person's own fields: a nine-digit id, a name of at most 25
/// characters and an email address holding `@`.
pub open spec fn valid_person_fields(id: u32, name: Seq<char>, email: Seq<char>) -> bool {
    &&& id <= MAX_MEMBER_ID
    &&& name.len() <= MAX_NAME_SIZE
    &&& has_char(email, '@')
}

/// The limits that a person keeps.
pub open spec fn valid_person(p: PersonView) -> bool {
    valid_person_fields(p.id, p.name, p.email) && valid_location(p.location)
}

/// Why a person with these fields is rejected; meaningful only where
/// `valid_person_fields` fails.  The first broken limit, in the order id, name,
/// email, is named.
pub open spec fn person_rejection(id: u32, name: Seq<char>, email: Seq<char>) -> Seq<char> {
    if id > MAX_MEMBER_ID {
        "id"@ + " must be less than or equal to 999999999: "@ + decimal(id as nat)
    } else if name.len() > MAX_NAME_SIZE {
        "name"@ + " must be less than or equal to 25 characters: "@ + name
    } else {
        "email"@ + " does not have an '@' symbol: "@ + email
    }
}

/// A member or a provider.
#[derive(Debug)]
pub struct PersonInfo {
    id: u32,
    name: String,
    location: LocationInfo,
    email: String,
}

impl View for PersonInfo {
    type V = PersonView;

    closed spec fn view(&self) -> PersonView {
        PersonView { id: self.id, name: self.name@, location: self.location@, email: self.email@ }
    }
}

impl PersonInfo {
    /// Every person keeps the limits of its fields.
    #[verifier::type_invariant]
    pub open spec fn inv(self) -> bool {
        valid_person_fields(self@.id, self@.name, self@.email)
    }

    /// Creates a person, or names the first field that breaks its limit.
    pub fn new(name: &str, id: u32, location: &LocationInfo, email: &str) -> (r: Result<Self, String>)
        ensures
            match r {
                Ok(p) => valid_person_fields(id, name@, email@) && valid_person(p@) && p@ == (PersonView {
                    id,
                    name: name@,
                    location: location@,
                    email: email@,
                }),
                Err(m) => !valid_person_fields(id, name@, email@) && m@ == person_rejection(
                    id,
                    name@,
                    email@,
                ),
            },
    {
        proof { use_type_invariant(location); }
        if id > MAX_MEMBER_ID {
            return Err(number_rejection("id", " must be less than or equal to 999999999: ", id));
        }
        if name.unicode_len() > MAX_NAME_SIZE {
            return Err(rejection("name", " must be less than or equal to 25 characters: ", name));
        }
        if !contains_char(email, '@') {
            return Err(rejection("email", " does not have an '@' symbol: ", email));
        }
        Ok(PersonInfo {
            name: String::from_str(name),
            id,
            location: location.copied(),
            email: String::from_str(email),
        })
    }

    /// A copy of this person.
    pub fn copied(&self) -> (r: Self)
        ensures
            r == *self,
            r@ == self@,
    {
        proof { use_type_invariant(self); }
        PersonInfo {
            id: self.id,
            name: self.name.clone(),
            location: self.location.copied(),
            email: self.email.clone(),
        }
    }

    pub fn id(&self) -> (r: u32)
        ensures
            r == self@.id,
    {
        self.id
    }

    pub fn name(&self) -> (r: &str)
        ensures
            r@ == self@.name,
    {
        self.name.as_str()
    }

    pub fn location(&self) -> (r: &LocationInfo)
        ensures
            r@ == self@.location,
    {
        &self.location
    }

    pub fn email(&self) -> (r: &str)
        ensures
            r@ == self@.email,
    {
        self.email.as_str()
    }
}

// ------------------------------------------------------------ consultations

/// What a consultation record holds.
pub struct ConsultationView {
    pub curr_date: Seq<char>,
    pub service_date: Seq<char>,
    pub provider_id: u32,
    pub member_id: u32,
    pub service_code: u32,
    pub comments: Seq<char>,
}

/// The limits that a consultation record keeps: a capture time stamp of 19
/// characters, a service date `MM-DD-YYYY`, nine-digit person ids, a six-digit
/// service code and comments of fewer than 100 characters.
pub open spec fn valid_consultation(c: ConsultationView) -> bool {
    &&& c.curr_date.len() == DATE_TIME_SIZE
    &&& c.service_date.len() == SERVICE_DATE_SIZE
    &&& is_service_date(c.service_date)
    &&& c.provider_id <= MAX_PROVIDER_ID
    &&& c.member_id <= MAX_MEMBER_ID
    &&& c.service_code <= MAX_SERVICE_CODE
    &&& c.comments.len() < MAX_COMMENT_SIZE
}

/// Why a consultation with these fields is rejected; meaningful only where
/// `valid_consultation` fails.  The first broken limit, in the order of the
/// fields, is named.
pub open spec fn consultation_rejection(c: ConsultationView) -> Seq<char> {
    if c.curr_date.len() != DATE_TIME_SIZE {
        "current date time"@ + " must be equal to 19 characters: "@ + c.curr_date
    } else if c.service_date.len() != SERVICE_DATE_SIZE {
        "service date"@ + " must be equal to 10 characters: "@ + c.service_date
    } else if !is_service_date(c.service_date) {
        "service date"@ + " must match format MM-DD-YYYY: "@ + c.service_date
    } else if c.provider_id > MAX_PROVIDER_ID {
        "provider_id"@ + " must be less than or equal to 999999999: "@ + decimal(
            c.provider_id as nat,
        )
    } else if c.member_id > MAX_MEMBER_ID {
        "member_id"@ + " must be less than or equal to 999999999: "@ + decimal(c.member_id as nat)
    } else if c.service_code > MAX_SERVICE_CODE {
        "service_code"@ + " must be less than or equal to 999999: "@ + decimal(
            c.service_code as nat,
        )
    } else {
        "comments"@ + " must be fewer than 100 characters: "@ + c.comments
    }
}

/// One consultation between a member and a provider.
#[derive(Debug)]
pub struct Consultation {
    curr_date: String,
    service_date: String,
    provider_id: u32,
    member_id: u32,
    service_code: u32,
    comments: String,
}

impl View for Consultation {
    type V = ConsultationView;

    closed spec fn view(&self) -> ConsultationView {
        ConsultationView {
            curr_date: self.curr_date@,
            service_date: self.service_date@,
            provider_id: self.provider_id,
            member_id: self.member_id,
            service_code: self.service_code,
            comments: self.comments@,
        }
    }
}

impl Consultation {
    /// Every consultation record keeps its limits.
    #[verifier::type_invariant]
    pub open spec fn inv(self) -> bool {
        valid_consultation(self@)
    }

    /// Creates a consultation record, or names the first field that breaks its
    /// limit.
    pub fn new(
        curr_date: &str,
        service_date: &str,
        provider_id: u32,
        member_id: u32,
        service_code: u32,
        comments: &str,
    ) -> (r: Result<Self, String>)
        ensures
            ({
                let c = ConsultationView {
                    curr_date: curr_date@,
                    service_date: service_date@,
                    provider_id,
                    member_id,
                    service_code,
                    comments: comments@,
                };
                match r {
                    Ok(k) => valid_consultation(c) && k@ == c,
                    Err(m) => !valid_consultation(c) && m@ == consultation_rejection(c),
                }
            }),
    {
        if curr_date.unicode_len() != DATE_TIME_SIZE {
            return Err(rejection("current date time", " must be equal to 19 characters: ", curr_date));
        }
        if service_date.unicode_len() != SERVICE_DATE_SIZE {
            return Err(rejection("service date", " must be equal to 10 characters: ", service_date));
        }
        if parse_service_date(service_date).is_none() {
            return Err(rejection("service date", " must match format MM-DD-YYYY: ", service_date));
        }
        if provider_id > MAX_PROVIDER_ID {
            return Err(
                number_rejection("provider_id", " must be less than or equal to 999999999: ", provider_id),
            );
        }
        if member_id > MAX_MEMBER_ID {
            return Err(
                number_rejection("member_id", " must be less than or equal to 999999999: ", member_id),
            );
        }
        if service_code > MAX_SERVICE_CODE {
            return Err(
                number_rejection("service_code", " must be less than or equal to 999999: ", service_code),
            );
        }
        if comments.unicode_len() >= MAX_COMMENT_SIZE {
            return Err(rejection("comments", " must be fewer than 100 characters: ", comments));
        }
        Ok(Consultation {
            curr_date: String::from_str(curr_date),
            service_date: String::from_str(service_date),
            provider_id,
            member_id,
            service_code,
            comments: String::from_str(comments),
        })
    }

    /// A copy of this record.
    pub fn copied(&self) -> (r: Self)
        ensures
            r == *self,
            r@ == self@,
    {
        proof { use_type_invariant(self); }
        Consultation {
            curr_date: self.curr_date.clone(),
            service_date: self.service_date.clone(),
            provider_id: self.provider_id,
            member_id: self.member_id,
            service_code: self.service_code,
            comments: self.comments.clone(),
        }
    }

    pub fn curr_date(&self) -> (r: &str)
        ensures
            r@ == self@.curr_date,
    {
        self.curr_date.as_str()
    }

    pub fn service_date(&self) -> (r: &str)
        ensures
            r@ == self@.service_date,
    {
        self.service_date.as_str()
    }

    pub fn provider_id(&self) -> (r: u32)
        ensures
            r == self@.provider_id,
    {
        self.provider_id
    }

    pub fn member_id(&self) -> (r: u32)
        ensures
            r == self@.member_id,
    {
        self.member_id
    }

    pub fn service_code(&self) -> (r: u32)
        ensures
            r == self@.service_code,
    {
        self.service_code
    }

    pub fn comments(&self) -> (r: &str)
        ensures
            r@ == self@.comments,
    {
        self.comments.as_str()
    }
}

} // verus!
