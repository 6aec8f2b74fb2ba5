//! Addressed report messages and the text in which they are delivered.
//!
//! The library does not deliver anything itself: each `send_*` function
//! addresses a message of its category, and a delivery layer writes it out
//! under [`Email::file_name`] with the text of [`Email::file_text`].

use vstd::prelude::*;

verus! {

/// What a report is, which decides where it is delivered.
#[derive(Clone, Copy, Debug, PartialEq, Eq, Structural)]
pub enum Category {
    Member,
    Provider,
    Manager,
    Directory,
}

/// The folder that messages of a category are delivered into.  The service
/// directory goes to providers and shares their folder.
pub open spec fn folder_of(c: Category) -> Seq<char> {
    match c {
        Category::Member => "./emails/member"@,
        Category::Provider => "./emails/provider"@,
        Category::Manager => "./emails/manager"@,
        Category::Directory => "./emails/provider"@,
    }
}

impl Category {
    /// The folder that messages of this category are delivered into.
    pub fn folder(&self) -> (r: &'static str)
        ensures
            r@ == folder_of(*self),
    {
        match self {
            Category::Member => "./emails/member",
            Category::Provider => "./emails/provider",
            Category::Manager => "./emails/manager",
            Category::Directory => "./emails/provider",
        }
    }
}

/// What a message holds.
pub struct EmailView {
    pub category: Category,
    pub to: Seq<char>,
    pub from: Seq<char>,
    pub subject: Seq<char>,
    pub body: Seq<char>,
    pub recipient_name: Seq<char>,
}

/// A report addressed to one recipient.
#[derive(Debug)]
pub struct Email {
    pub category: Category,
    pub to: String,
    pub from: String,
    pub subject: String,
    pub body: String,
    pub recipient_name: String,
}

impl View for Email {
    type V = EmailView;

    open spec fn view(&self) -> EmailView {
        EmailView {
            category: self.category,
            to: self.to@,
            from: self.from@,
            subject: self.subject@,
            body: self.body@,
            recipient_name: self.recipient_name@,
        }
    }
}

/// The message that addresses `body` from `from` to `to`.
pub open spec fn email_of(
    category: Category,
    to: Seq<char>,
    from: Seq<char>,
    subject: Seq<char>,
    body: Seq<char>,
    recipient_name: Seq<char>,
) -> EmailView {
    EmailView { category, to, from, subject, body, recipient_name }
}

/// The name of the file a message is delivered in, given the time stamp of
/// delivery: `<folder>/<recipient name>_<stamp>.txt`.
pub open spec fn file_name_of(e: EmailView, stamp: Seq<char>) -> Seq<char> {
    folder_of(e.category) + "/"@ + e.recipient_name + "_"@ + stamp + ".txt"@
}

/// The text a message is delivered as, given the date of delivery: the
/// `To`, `From`, `Subject` and `Date` lines, a blank line, and the body
/// followed by a blank line.
pub open spec fn file_text_of(e: EmailView, date: Seq<char>) -> Seq<char> {
    "To: "@ + e.to + "\n"@ + "From: "@ + e.from + "\n"@ + "Subject: "@ + e.subject + "\n"@
        + "Date: "@ + date + "\n\n"@ + e.body + "\n\n"@
}

fn address(
    category: Category,
    to: &str,
    from: &str,
    subject: &str,
    body: &str,
    recipient_name: &str,
) -> (r: Email)
    ensures
        r@ == email_of(category, to@, from@, subject@, body@, recipient_name@),
{
    Email {
        category,
        to: String::from_str(to),
        from: String::from_str(from),
        subject: String::from_str(subject),
        body: String::from_str(body),
        recipient_name: String::from_str(recipient_name),
    }
}

/// Addresses a provider report.
pub fn send_provider_report(
    to: &str,
    from: &str,
    subject: &str,
    body: &str,
    recipient_name: &str,
) -> (r: Email)
    ensures
        r@ == email_of(Category::Provider, to@, from@, subject@, body@, recipient_name@),
{
    address(Category::Provider, to, from, subject, body, recipient_name)
}

/// Addresses a member report.
pub fn send_member_report(
    to: &str,
    from: &str,
    subject: &str,
    body: &str,
    recipient_name: &str,
) -> (r: Email)
    ensures
        r@ == email_of(Category::Member, to@, from@, subject@, body@, recipient_name@),
{
    address(Category::Member, to, from, subject, body, recipient_name)
}

/// Addresses a manager report.
pub fn send_manager_report(
    to: &str,
    from: &str,
    subject: &str,
    body: &str,
    recipient_name: &str,
) -> (r: Email)
    ensures
        r@ == email_of(Category::Manager, to@, from@, subject@, body@, recipient_name@),
{
    address(Category::Manager, to, from, subject, body, recipient_name)
}

/// Addresses a service directory listing.
pub fn send_provider_directory(
    to: &str,
    from: &str,
    subject: &str,
    body: &str,
    recipient_name: &str,
) -> (r: Email)
    ensures
        r@ == email_of(Category::Directory, to@, from@, subject@, body@, recipient_name@),
{
    address(Category::Directory, to, from, subject, body, recipient_name)
}

impl Email {
    /// The name of the file this message is delivered in, for the delivery
    /// time stamp `stamp`.
    pub fn file_name(&self, stamp: &str) -> (r: String)
        ensures
            r@ == file_name_of(self@, stamp@),
    {
        let mut s = String::from_str(self.category.folder());
        s.append("/");
        s.append(self.recipient_name.as_str());
        s.append("_");
        s.append(stamp);
        s.append(".txt");
        s
    }

    /// The text this message is delivered as, for the delivery date `date`.
    pub fn file_text(&self, date: &str) -> (r: String)
        ensures
            r@ == file_text_of(self@, date@),
    {
        let mut s = String::from_str("To: ");
        s.append(self.to.as_str());
        s.append("\n");
        s.append("From: ");
        s.append(self.from.as_str());
        s.append("\n");
        s.append("Subject: ");
        s.append(self.subject.as_str());
        s.append("\n");
        s.append("Date: ");
        s.append(date);
        s.append("\n\n");
        s.append(self.body.as_str());
        s.append("\n\n");
        s
    }
}

} // verus!
