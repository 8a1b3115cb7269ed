//! How a delegate provider answers a query for credentials.
use super::ByteCursor;
use vstd::prelude::*;

verus! {

/// When credentials expire.
#[derive(Debug, Clone, Copy, PartialEq, Eq, Structural)]
pub enum Expiry {
    /// At some moment before the epoch.
    BeforeEpoch,
    /// So many seconds, and nanoseconds past the last of them, after the epoch.
    SinceEpoch { seconds: u64, nanos: u32 },
}

/// Credentials as the chain provides them.
pub struct Credentials {
    pub access_key_id: String,
    pub secret_access_key: String,
    pub session_token: Option<String>,
    pub expiry: Option<Expiry>,
}

/// Credentials as they are handed to the CRT.
pub struct CredentialsOptions<'a> {
    pub access_key_id_cursor: ByteCursor<'a>,
    pub secret_access_key_cursor: ByteCursor<'a>,
    pub session_token_cursor: ByteCursor<'a>,
    pub expiration_timepoint_seconds: u64,
}

/// What a query returns to the CRT.
#[derive(Debug, Clone, Copy, PartialEq, Eq, Structural)]
pub enum OpStatus {
    Success,
    Failure,
}

/// What to do about a query.
#[derive(Debug, Clone, Copy, PartialEq, Eq, Structural)]
pub enum QueryAction {
    /// Ask the chain for credentials.
    Fetch,
    /// Return without asking.
    Return { status: OpStatus },
}

/// What to do about the chain's answer.
pub enum AnswerAction<'a> {
    /// Hand the credentials to the callback, as no error, and return.
    Deliver { options: CredentialsOptions<'a>, status: OpStatus },
    /// Return without calling the callback.
    Return { status: OpStatus },
}

/// The second in which credentials expire, counted from the epoch: for those that do not expire,
/// or do so before the epoch, the last there is.
pub open spec fn expiration(expiry: Option<Expiry>) -> u64 {
    match expiry {
        Some(Expiry::SinceEpoch { seconds, .. }) => seconds,
        _ => u64::MAX,
    }
}

/// The second in which credentials expire, as it is handed to the CRT.
pub fn expiration_timepoint_seconds(expiry: Option<Expiry>) -> (r: u64)
    ensures
        r == expiration(expiry),
        expiry matches Some(Expiry::SinceEpoch { seconds, .. }) ==> r == seconds,
        !(expiry matches Some(Expiry::SinceEpoch { .. })) ==> r == 0xffff_ffff_ffff_ffff,
{
    match expiry {
        Some(Expiry::SinceEpoch { seconds, .. }) => seconds,
        _ => u64::MAX,
    }
}

/// The second that is handed to the CRT is never past the moment at which credentials expire, and
/// less than a second short of it, for credentials that expire at the epoch or later.
pub proof fn law_expiration_is_rounded_down(seconds: u64, nanos: u32)
    requires
        nanos < 1_000_000_000,
    ensures
        ({
            let moment = seconds * 1_000_000_000 + nanos;
            let handed_over = expiration(Some(Expiry::SinceEpoch { seconds, nanos }))
                * 1_000_000_000;
            handed_over <= moment < handed_over + 1_000_000_000
        }),
{
}

/// Credentials that expire at different seconds are handed over with different ones, in the same
/// order, and those that do not expire, or expired before the epoch, with the last second that
/// there is.
pub proof fn law_expirations_are_ordered(a: Expiry, b: Expiry)
    ensures
        (a matches Expiry::SinceEpoch { seconds: x, .. } && b matches Expiry::SinceEpoch {
            seconds: y,
            ..
        } && x < y) ==> expiration(Some(a)) < expiration(Some(b)),
        expiration(Some(a)) <= expiration(None),
        expiration(None) == 0xffff_ffff_ffff_ffff,
        a is BeforeEpoch ==> expiration(Some(a)) == expiration(None),
        a matches Expiry::SinceEpoch { seconds, .. } ==> expiration(Some(a)) == seconds,
{
}

/// Whether `options` hands over exactly `credentials`.
pub open spec fn hands_over(options: CredentialsOptions<'_>, credentials: Credentials) -> bool {
    &&& options.access_key_id_cursor is Text
    &&& options.access_key_id_cursor.text() == credentials.access_key_id@
    &&& options.secret_access_key_cursor is Text
    &&& options.secret_access_key_cursor.text() == credentials.secret_access_key@
    &&& match credentials.session_token {
        Some(token) => options.session_token_cursor is Text && options.session_token_cursor.text()
            == token@,
        None => options.session_token_cursor is Null,
    }
    &&& options.expiration_timepoint_seconds == expiration(credentials.expiry)
}

/// What is handed over is the credentials themselves: the two keys and the session token character
/// by character, no address for a session token that there is not, and the second in which
/// they expire.
pub proof fn law_credentials_are_handed_over_whole(
    options: CredentialsOptions<'_>,
    credentials: Credentials,
)
    requires
        hands_over(options, credentials),
    ensures
        options.access_key_id_cursor matches ByteCursor::Text(id) && id@
            == credentials.access_key_id@,
        options.secret_access_key_cursor matches ByteCursor::Text(secret) && secret@
            == credentials.secret_access_key@,
        credentials.session_token matches Some(token) ==> (options.session_token_cursor matches
            ByteCursor::Text(text) && text@ == token@),
        credentials.session_token is None ==> options.session_token_cursor is Null,
        credentials.expiry matches Some(Expiry::SinceEpoch { seconds, .. })
            ==> options.expiration_timepoint_seconds == seconds,
        !(credentials.expiry matches Some(Expiry::SinceEpoch { .. }))
            ==> options.expiration_timepoint_seconds == 0xffff_ffff_ffff_ffff,
{
}

/// The credentials as they are handed to the CRT.
pub fn credentials_options<'a>(credentials: &'a Credentials) -> (r: CredentialsOptions<'a>)
    ensures
        hands_over(r, *credentials),
        r.access_key_id_cursor matches ByteCursor::Text(id) && id@ == credentials.access_key_id@,
        r.secret_access_key_cursor matches ByteCursor::Text(secret) && secret@
            == credentials.secret_access_key@,
        credentials.session_token matches Some(token) ==> (r.session_token_cursor matches
            ByteCursor::Text(text) && text@ == token@),
        credentials.session_token is None ==> r.session_token_cursor is Null,
        credentials.expiry matches Some(Expiry::SinceEpoch { seconds, .. })
            ==> r.expiration_timepoint_seconds == seconds,
        !(credentials.expiry matches Some(Expiry::SinceEpoch { .. }))
            ==> r.expiration_timepoint_seconds == 0xffff_ffff_ffff_ffff,
{
    CredentialsOptions {
        access_key_id_cursor: ByteCursor::Text(credentials.access_key_id.as_str()),
        secret_access_key_cursor: ByteCursor::Text(credentials.secret_access_key.as_str()),
        session_token_cursor: match &credentials.session_token {
            Some(token) => ByteCursor::Text(token.as_str()),
            None => ByteCursor::Null,
        },
        expiration_timepoint_seconds: expiration_timepoint_seconds(credentials.expiry),
    }
}

/// Starts a query. Without a callback there is nobody to ask for.
pub fn start_query(has_callback: bool) -> (r: QueryAction)
    ensures
        r == (if has_callback {
            QueryAction::Fetch
        } else {
            QueryAction::Return { status: OpStatus::Failure }
        }),
{
    if has_callback {
        QueryAction::Fetch
    } else {
        QueryAction::Return { status: OpStatus::Failure }
    }
}

/// Finishes a query with what the chain answered: credentials, or none where it failed.
pub fn finish_query<'a>(answer: Option<&'a Credentials>) -> (r: AnswerAction<'a>)
    ensures
        match answer {
            Some(credentials) => {
                &&& r matches AnswerAction::Deliver { options, status }
                &&& hands_over(options, *credentials)
                &&& status == OpStatus::Success
            },
            None => r == (AnswerAction::Return { status: OpStatus::Failure }),
        },
{
    match answer {
        Some(credentials) => AnswerAction::Deliver {
            options: credentials_options(credentials),
            status: OpStatus::Success,
        },
        None => AnswerAction::Return { status: OpStatus::Failure },
    }
}

} // verus!
