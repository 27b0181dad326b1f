//! Request and response shapes of the service's operations, and the
//! queued email job.

use vstd::prelude::*;

use crate::types::{Member, MemberV, Topic, TopicV};

verus! {

/// Delete the records with these ids.
#[derive(Debug)]
pub struct DeleteRequest {
    pub ids: Vec<String>,
}

/// For each requested id, the removed record if one was stored and
/// readable.
#[derive(Debug)]
pub struct DeleteResponse<T> {
    pub removed: Vec<Option<T>>,
}

/// Store these records, assigning ids where absent.
#[derive(Debug)]
pub struct UpdateRequest<T> {
    pub values: Vec<T>,
}

/// One stored record: what now stands, and what stood there before.
#[derive(Debug)]
pub struct UpdateStatus<T> {
    pub replaced: Option<T>,
    pub current: T,
}

#[derive(Debug)]
pub struct UpdateResponse<T> {
    pub updates: Vec<UpdateStatus<T>>,
}

/// List every record of a table.
#[derive(Debug)]
pub struct ListRequest {}

#[derive(Debug)]
pub struct ListResponse<T> {
    pub items: Vec<T>,
}

/// Send confirmation mail for a topic, based on stored content.
#[derive(Debug)]
pub struct ConfirmEmailRequest {
    pub topic_id: String,
    pub email_id: String,
}

#[derive(Debug)]
pub struct ConfirmEmailResponse {
    pub topic: Option<Topic>,
}

/// A queued unit of work: one email to render and send.
#[derive(Debug)]
pub struct EmailRequest {
    /// Topic snapshot at enqueue time.
    pub topic: Topic,
    /// Member snapshot at enqueue time.
    pub member: Member,
    /// Reference to the stored raw email content to start from.
    pub email_id: String,
    /// Append a confirmation link rather than an unsubscribe link.
    pub confirm_link: bool,
}

/// Specification-level shape of an `EmailRequest`.
pub struct EmailRequestV {
    pub topic: TopicV,
    pub member: MemberV,
    pub email_id: Seq<char>,
    pub confirm_link: bool,
}

impl View for EmailRequest {
    type V = EmailRequestV;

    open spec fn view(&self) -> EmailRequestV {
        EmailRequestV {
            topic: self.topic@,
            member: self.member@,
            email_id: self.email_id@,
            confirm_link: self.confirm_link,
        }
    }
}

} // verus!
