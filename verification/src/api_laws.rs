//! What the answers of the internal API mean, for every status.

use vstd::prelude::*;
use crate::api::{self, GrantView, NotePublicationError, ReserveError, RetryStep};

verus! {

/// A status is one of success exactly from 200 up to 299.
pub proof fn law_success(status: u16)
    ensures
        api::success(status) <==> 200 <= status <= 299,
{
}

/// A note is counted exactly where the API was reached and its status is from 200 up to 299. Status
/// 429 says that the limit is reached; any other, and none, that counting is unavailable.
pub proof fn law_notes_are_counted_on_success(status: Option<u16>)
    ensures
        ({
            let outcome = api::note_outcome(status);
            let counted = status is Some && 200 <= status->0 <= 299;
            let limited = status == Some(429u16);
            &&& outcome is Ok <==> counted
            &&& outcome == Err::<(), NotePublicationError>(NotePublicationError::LimitReached)
                <==> limited
            &&& outcome == Err::<(), NotePublicationError>(NotePublicationError::Unavailable)
                <==> !counted && !limited
        }),
{
}

/// What the API says of a grant counts, whatever it says, exactly where the API was reached, its
/// status is from 200 up to 299, and what it says is readable. Else nothing is granted, and no
/// account is known.
pub proof fn law_grants_are_what_the_api_says(status: Option<u16>, body: GrantView)
    ensures
        status is Some && 200 <= status->0 <= 299 ==> api::grant(status, Some(body)) == body,
        !(status is Some && 200 <= status->0 <= 299) ==> !api::grant(status, Some(body)).authorized
            && api::grant(status, Some(body)).account is None,
        !api::grant(status, None).authorized,
        api::grant(status, None).account is None,
{
}

/// Storage is refused, by its status and the error code that it names, exactly where the status is
/// not from 200 up to 299: on 413 for the limit of one upload where the code says so, and else for
/// that of the account; on any other status, and without one, because nothing can be told.
pub proof fn law_reservations_by_status(status: Option<u16>, code: Option<Seq<char>>)
    ensures
        ({
            let fault = api::reserve_fault(status, code);
            let too_large = status == Some(413u16);
            let one_upload = code == Some("blossom_upload_limit_reached"@);
            &&& fault is None <==> status is Some && 200 <= status->0 <= 299
            &&& fault == Some(ReserveError::UploadLimitReached) <==> too_large && one_upload
            &&& fault == Some(ReserveError::StorageLimitReached) <==> too_large && !one_upload
        }),
{
}

/// Storage is set aside exactly where the API was reached, its status is from 200 up to 299, and it
/// holds a reservation; then that is the one. Without a reservation, or with any other status but 413,
/// nothing can be told; on 413 a limit is reached, that of one upload where the code says so.
pub proof fn law_reservations(status: Option<u16>, code: Option<Seq<char>>, held: Option<Seq<char>>)
    ensures
        ({
            let outcome = api::reservation(status, code, held);
            let made = status is Some && 200 <= status->0 <= 299 && held is Some;
            let limited = status == Some(413u16);
            let one_upload = code == Some("blossom_upload_limit_reached"@);
            &&& made ==> outcome is Ok && outcome->Ok_0 == held->0
            &&& limited && one_upload ==> outcome == Err::<Seq<char>, ReserveError>(
                ReserveError::UploadLimitReached,
            )
            &&& limited && !one_upload ==> outcome == Err::<Seq<char>, ReserveError>(
                ReserveError::StorageLimitReached,
            )
            &&& !made && !limited ==> outcome == Err::<Seq<char>, ReserveError>(
                ReserveError::Unavailable,
            )
        }),
{
}

/// A request that arrived is not sent again. One that did not is sent again after a pause of 50
/// milliseconds the first time and of 100 the second, and given up after the third.
pub proof fn law_retries(attempt: u64)
    ensures
        api::retry(attempt, true) == RetryStep::Succeeded,
        api::retry(0, false) == RetryStep::Wait(50),
        api::retry(1, false) == RetryStep::Wait(100),
        attempt >= 2 ==> api::retry(attempt, false) == RetryStep::Failed,
{
}

/// A request arrived exactly where it got a status from 200 up to 299. It is not sent again then; and
/// else only after its first and its second attempt.
pub proof fn law_retries_by_status(attempt: u64, status: Option<u16>)
    ensures
        ({
            let next = api::retry_after(attempt, status);
            let arrived = status is Some && 200 <= status->0 <= 299;
            &&& next == RetryStep::Succeeded <==> arrived
            &&& next == RetryStep::Failed <==> !arrived && attempt >= 2
            &&& next is Wait <==> !arrived && attempt < 2
            &&& next is Wait ==> next->Wait_0 == 50 * (attempt + 1)
        }),
{
}

} // verus!
