//! Record validation, record storage and report aggregation for a health-plan
//! consultation service.
//!
//! Members and providers are validated and kept in a [`db::DB`] store together
//! with the service directory and the log of consultations.  From that store the
//! library renders the weekly member and provider reports, the manager report and
//! the service directory listing as addressed messages ([`esend::Email`]) that a
//! delivery layer hands on.

pub mod date;
pub mod db;
pub mod esend;
pub mod laws;
pub mod record;
pub mod report;
pub mod text;
