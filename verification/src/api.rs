//! The internal API that grants access and keeps accounts: its addresses, what is asked of it, and
//! what its answers mean.

use vstd::prelude::*;
use vstd::string::*;
use crate::text;

verus! {

/// The service under which the relay is granted.
pub const RELAY_SERVICE: &'static str = "shared-relay";

/// The service under which the media store is granted.
pub const BLOSSOM_SERVICE: &'static str = "shared-blossom";

/// How often a request that has to arrive is sent before it is given up.
pub const MAX_ATTEMPTS: u64 = 3;

/// The pause after a first failed attempt, in milliseconds; it grows by as much each time.
pub const RETRY_STEP_MILLIS: u64 = 50;

/// A question for a grant: may a key, or anybody, act on a service?
#[derive(Debug, PartialEq)]
pub struct AuthorizationRequest {
    pub service: &'static str,
    pub action: &'static str,
    pub public_key: Option<String>,
}

/// The answer to a question for a grant.
#[derive(Debug, PartialEq)]
pub struct AuthorizationResponse {
    pub authorized: bool,
    pub account_identity_id: Option<String>,
}

/// Counts a note towards its author's limit.
#[derive(Debug, PartialEq)]
pub struct RecordNotePublicationRequest {
    pub public_key: String,
    pub event_id: String,
}

/// Why a note was not counted.
#[derive(Debug, Clone, Copy, PartialEq, Eq, Structural)]
pub enum NotePublicationError {
    LimitReached,
    Unavailable,
}

/// Sets storage of an account aside for an upload.
#[derive(Debug, PartialEq)]
pub struct ReserveUploadRequest {
    pub account_identity_id: String,
    pub requested_bytes: i64,
    pub sha256: Option<String>,
}

/// Storage that was set aside.
#[derive(Debug, PartialEq)]
pub struct ReserveUploadResponse {
    pub reservation_id: String,
}

/// Why no storage was set aside.
#[derive(Debug, Clone, Copy, PartialEq, Eq, Structural)]
pub enum ReserveError {
    UploadLimitReached,
    StorageLimitReached,
    Unavailable,
}

/// Turns storage that was set aside into a stored blob.
#[derive(Debug, PartialEq)]
pub struct CommitUploadRequest {
    pub sha256: String,
    pub size_bytes: i64,
    pub mime_type: String,
    pub public_url: String,
    pub uploaded_at: i64,
}

/// Gives up an account's share in a blob.
#[derive(Debug, PartialEq)]
pub struct ReleaseOwnerRequest {
    pub account_identity_id: String,
    pub sha256: String,
}

/// A status of success: one of the two hundreds.
pub open spec fn success(status: u16) -> bool {
    200 <= status < 300
}

/// Whether a status is one of success.
pub fn is_success(status: u16) -> (r: bool)
    ensures
        r == success(status),
{
    200 <= status && status < 300
}

/// Where a grant is asked for.
pub fn authorize_url(api_origin: &str) -> (r: String)
    ensures
        r@ == api_origin@ + "/v1/internal/nostr/authorize"@,
{
    api_origin.to_owned().concat("/v1/internal/nostr/authorize")
}

/// Where a note is counted.
pub fn note_publications_url(api_origin: &str) -> (r: String)
    ensures
        r@ == api_origin@ + "/v1/internal/nostr/note-publications"@,
{
    api_origin.to_owned().concat("/v1/internal/nostr/note-publications")
}

/// Where storage is set aside.
pub fn reservations_url(api_origin: &str) -> (r: String)
    ensures
        r@ == api_origin@ + "/v1/internal/blossom/reservations"@,
{
    api_origin.to_owned().concat("/v1/internal/blossom/reservations")
}

/// Where storage that was set aside is given back.
pub fn reservation_url(api_origin: &str, reservation_id: &str) -> (r: String)
    ensures
        r@ == api_origin@ + "/v1/internal/blossom/reservations/"@ + reservation_id@,
{
    api_origin.to_owned().concat("/v1/internal/blossom/reservations/").concat(reservation_id)
}

/// Where storage that was set aside becomes a stored blob.
pub fn commit_url(api_origin: &str, reservation_id: &str) -> (r: String)
    ensures
        r@ == api_origin@ + "/v1/internal/blossom/reservations/"@ + reservation_id@ + "/commit"@,
{
    reservation_url(api_origin, reservation_id).concat("/commit")
}

/// Where an account gives up its share in a blob.
pub fn release_url(api_origin: &str) -> (r: String)
    ensures
        r@ == api_origin@ + "/v1/internal/blossom/owners/release"@,
{
    api_origin.to_owned().concat("/v1/internal/blossom/owners/release")
}

/// What an answer to a question for a grant says.
pub struct GrantView {
    pub authorized: bool,
    pub account: Option<Seq<char>>,
}

impl View for AuthorizationResponse {
    type V = GrantView;

    open spec fn view(&self) -> GrantView {
        GrantView {
            authorized: self.authorized,
            account: text::optional_string(self.account_identity_id),
        }
    }
}

/// No grant, and no account.
pub open spec fn no_grant() -> GrantView {
    GrantView { authorized: false, account: None }
}

/// The grant that an answer of the API gives: what it says where it was reached, reported success
/// and said something readable, and else nothing.
pub open spec fn grant(status: Option<u16>, body: Option<GrantView>) -> GrantView {
    if status is Some && success(status->0) && body is Some {
        body->0
    } else {
        no_grant()
    }
}

impl AuthorizationResponse {
    /// The answer that grants nothing.
    pub fn denied() -> (r: Self)
        ensures
            r@ == no_grant(),
    {
        AuthorizationResponse { authorized: false, account_identity_id: None }
    }
}

/// The grant that an answer of the API gives.
///
/// `status` is `None` where the API was not reached, `body` where what it said was not readable.
pub fn authorization_decision(status: Option<u16>, body: Option<AuthorizationResponse>) -> (r:
    AuthorizationResponse)
    ensures
        r@ == grant(
            status,
            match body {
                Some(answer) => Some(answer@),
                None => None,
            },
        ),
{
    match (status, body) {
        (Some(code), Some(answer)) => if is_success(code) {
            answer
        } else {
            AuthorizationResponse::denied()
        },
        _ => AuthorizationResponse::denied(),
    }
}

/// What a status means for a note; `None` stands for an API that was not reached.
pub open spec fn note_outcome(status: Option<u16>) -> Result<(), NotePublicationError> {
    if status == Some(429u16) {
        Err(NotePublicationError::LimitReached)
    } else if status is Some && success(status->0) {
        Ok(())
    } else {
        Err(NotePublicationError::Unavailable)
    }
}

/// Whether a note was counted, by the status of the answer.
pub fn note_publication_outcome(status: Option<u16>) -> (r: Result<(), NotePublicationError>)
    ensures
        r == note_outcome(status),
{
    match status {
        Some(code) => if code == 429 {
            Err(NotePublicationError::LimitReached)
        } else if is_success(code) {
            Ok(())
        } else {
            Err(NotePublicationError::Unavailable)
        },
        None => Err(NotePublicationError::Unavailable),
    }
}

/// Why a status and an error code set no storage aside; `None` where the status is one of success.
pub open spec fn reserve_fault(status: Option<u16>, code: Option<Seq<char>>) -> Option<
    ReserveError,
> {
    if status == Some(413u16) {
        if code == Some("blossom_upload_limit_reached"@) {
            Some(ReserveError::UploadLimitReached)
        } else {
            Some(ReserveError::StorageLimitReached)
        }
    } else if status is Some && success(status->0) {
        None
    } else {
        Some(ReserveError::Unavailable)
    }
}

/// The reservation that an answer gives, or why it gives none.
pub open spec fn reservation(
    status: Option<u16>,
    code: Option<Seq<char>>,
    held: Option<Seq<char>>,
) -> Result<Seq<char>, ReserveError> {
    match (reserve_fault(status, code), held) {
        (Some(fault), _) => Err(fault),
        (None, Some(id)) => Ok(id),
        (None, None) => Err(ReserveError::Unavailable),
    }
}

/// Whether storage was set aside, by the status of the answer, the error code that it names and the
/// reservation that it holds. Each is `None` where the answer has none.
pub fn reservation_outcome(
    status: Option<u16>,
    code: Option<&str>,
    reservation: Option<ReserveUploadResponse>,
) -> (r: Result<ReserveUploadResponse, ReserveError>)
    ensures
        match reserve_fault(status, text::optional(code)) {
            Some(fault) => r == Err::<ReserveUploadResponse, ReserveError>(fault),
            None => match reservation {
                Some(made) => r == Ok::<ReserveUploadResponse, ReserveError>(made),
                None => r == Err::<ReserveUploadResponse, ReserveError>(ReserveError::Unavailable),
            },
        },
        ({
            let held = match reservation {
                Some(made) => Some(made.reservation_id@),
                None => None,
            };
            match self::reservation(status, text::optional(code), held) {
                Ok(id) => r is Ok && r->Ok_0.reservation_id@ == id,
                Err(fault) => r is Err && r->Err_0 == fault,
            }
        }),
{
    match status {
        Some(answered) => if answered == 413 {
            if text::is_text(code, "blossom_upload_limit_reached") {
                Err(ReserveError::UploadLimitReached)
            } else {
                Err(ReserveError::StorageLimitReached)
            }
        } else if is_success(answered) {
            match reservation {
                Some(made) => Ok(made),
                None => Err(ReserveError::Unavailable),
            }
        } else {
            Err(ReserveError::Unavailable)
        },
        None => Err(ReserveError::Unavailable),
    }
}

/// What follows an attempt at a request that has to arrive.
#[derive(Debug, Clone, Copy, PartialEq, Eq, Structural)]
pub enum RetryStep {
    /// It arrived.
    Succeeded,
    /// Wait as many milliseconds, and try again.
    Wait(u64),
    /// Give up.
    Failed,
}

/// What follows the attempt with a number, counted from zero.
pub open spec fn retry(attempt: u64, arrived: bool) -> RetryStep {
    if arrived {
        RetryStep::Succeeded
    } else if attempt + 1 < MAX_ATTEMPTS {
        RetryStep::Wait((RETRY_STEP_MILLIS * (attempt + 1)) as u64)
    } else {
        RetryStep::Failed
    }
}

/// What follows the attempt with a number, counted from zero, by the status that it got.
pub open spec fn retry_after(attempt: u64, status: Option<u16>) -> RetryStep {
    retry(attempt, status is Some && success(status->0))
}

/// What follows the attempt with a number, counted from zero: a status of success ends it, and so
/// does the last attempt. `status` is `None` where nothing was reached.
pub fn retry_internal_request(attempt: u64, status: Option<u16>) -> (r: RetryStep)
    ensures
        r == retry(attempt, status is Some && success(status->0)),
        r == retry_after(attempt, status),
{
    let arrived = match status {
        Some(code) => is_success(code),
        None => false,
    };
    if arrived {
        RetryStep::Succeeded
    } else if attempt < MAX_ATTEMPTS - 1 {
        RetryStep::Wait(RETRY_STEP_MILLIS * (attempt + 1))
    } else {
        RetryStep::Failed
    }
}

/// Whether a request arrives, given for each attempt whether that one would.
pub open spec fn delivered(attempts: spec_fn(u64) -> bool, from: u64) -> bool
    decreases MAX_ATTEMPTS - from,
{
    match retry(from, attempts(from)) {
        RetryStep::Succeeded => true,
        RetryStep::Wait(_) => delivered(attempts, (from + 1) as u64),
        RetryStep::Failed => false,
    }
}

/// A request that has to arrive does so exactly where one of its three attempts does.
pub proof fn law_three_attempts(attempts: spec_fn(u64) -> bool)
    ensures
        delivered(attempts, 0) == (attempts(0) || attempts(1) || attempts(2)),
{
    reveal_with_fuel(delivered, 3);
}

/// An API that is not reached, or does not report success, grants nothing and leaves a note and an
/// upload undone.
pub proof fn law_closed_without_the_api(
    status: Option<u16>,
    body: Option<GrantView>,
    code: Option<Seq<char>>,
)
    requires
        status is None || !success(status->0),
    ensures
        !grant(status, body).authorized,
        grant(status, body).account is None,
        note_outcome(status) is Err,
        reserve_fault(status, code) is Some,
        status is None ==> note_outcome(status) == Err::<(), NotePublicationError>(
            NotePublicationError::Unavailable,
        ),
        status is None ==> reserve_fault(status, code) == Some(ReserveError::Unavailable),
{
}

} // verus!
