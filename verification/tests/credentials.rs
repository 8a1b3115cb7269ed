use mountpoint_core::credentials::delegate::{
    credentials_options, expiration_timepoint_seconds, finish_query, start_query, AnswerAction, Credentials, Expiry,
    OpStatus, QueryAction,
};
use mountpoint_core::credentials::{
    Allocator, ByteCursor, ClientBootstrap, CredentialsProvider, CredentialsProviderChainDefaultOptions,
    CredentialsProviderProfileOptions, CredentialsProviderStaticOptions, CredentialsSource, CrtCall, CrtReply, Error,
    ProviderSetup,
};

const ALLOCATOR: Allocator = Allocator { inner: 7 };

fn made(object: usize) -> CrtReply {
    CrtReply { object, last_error: 0 }
}

fn failed(last_error: i32) -> CrtReply {
    CrtReply { object: 0, last_error }
}

fn result(setup: ProviderSetup<'_>) -> Result<CredentialsProvider, Error> {
    assert!(setup.next_call().is_none());
    match setup {
        ProviderSetup::Finished { result } => result,
        _ => panic!("not finished"),
    }
}

fn initialized(setup: ProviderSetup<'_>) -> ProviderSetup<'_> {
    assert!(matches!(setup.next_call(), Some(CrtCall::InitAuthLibrary { allocator: ALLOCATOR })));
    setup.resume(failed(3))
}

#[test]
fn chain_default() {
    let mut bootstrap = ClientBootstrap { inner: 11 };
    let options = CredentialsProviderChainDefaultOptions { bootstrap: &mut bootstrap };
    let setup = initialized(CredentialsProvider::new_chain_default(&ALLOCATOR, options));
    assert!(matches!(
        setup.next_call(),
        Some(CrtCall::NewProvider {
            allocator: ALLOCATOR,
            source: CredentialsSource::ChainDefault { bootstrap: 11 },
        })
    ));
    assert_eq!(result(setup.resume(made(99))), Ok(CredentialsProvider { inner: 99 }));
    assert_eq!(bootstrap, ClientBootstrap { inner: 11 });
}

#[test]
fn anonymous() {
    let setup = initialized(CredentialsProvider::new_anonymous(&ALLOCATOR));
    assert!(matches!(
        setup.next_call(),
        Some(CrtCall::NewProvider { source: CredentialsSource::Anonymous, .. })
    ));
    assert_eq!(result(setup.resume(failed(42))), Err(Error { code: 42 }));
}

#[test]
fn profile() {
    let mut bootstrap = ClientBootstrap { inner: 11 };
    let options = CredentialsProviderProfileOptions { bootstrap: &mut bootstrap, profile_name_override: "work" };
    let setup = initialized(CredentialsProvider::new_profile(&ALLOCATOR, options));
    assert!(matches!(
        setup.next_call(),
        Some(CrtCall::NewProvider {
            source: CredentialsSource::Profile { bootstrap: 11, profile_name_override: ByteCursor::Text("work") },
            ..
        })
    ));
    assert_eq!(result(setup.resume(made(5))), Ok(CredentialsProvider { inner: 5 }));
}

fn static_options(session_token: Option<&str>) -> CredentialsProviderStaticOptions<'_> {
    CredentialsProviderStaticOptions { access_key_id: "id", secret_access_key: "secret", session_token }
}

#[test]
fn static_with_a_session_token() {
    let setup = initialized(CredentialsProvider::new_static(&ALLOCATOR, static_options(Some("token"))));
    assert!(matches!(
        setup.next_call(),
        Some(CrtCall::NewProvider {
            source: CredentialsSource::Static {
                access_key_id: ByteCursor::Text("id"),
                secret_access_key: ByteCursor::Text("secret"),
                session_token: ByteCursor::Text("token"),
            },
            ..
        })
    ));
    assert_eq!(result(setup.resume(made(1))), Ok(CredentialsProvider { inner: 1 }));
}

#[test]
fn static_without_a_session_token() {
    let setup = initialized(CredentialsProvider::new_static(&ALLOCATOR, static_options(None)));
    assert!(matches!(
        setup.next_call(),
        Some(CrtCall::NewProvider {
            source: CredentialsSource::Static { session_token: ByteCursor::Null, .. },
            ..
        })
    ));
}

#[test]
fn sdk_chain_is_a_cached_delegate() {
    let setup = initialized(CredentialsProvider::new_rust_sdk_default_chain(&ALLOCATOR));
    assert!(matches!(
        setup.next_call(),
        Some(CrtCall::NewProvider { allocator: ALLOCATOR, source: CredentialsSource::SdkDefaultChain })
    ));
    let setup = setup.resume(made(20));
    assert!(matches!(
        setup.next_call(),
        Some(CrtCall::NewCached { allocator: ALLOCATOR, provider: 20, refresh_time_in_milliseconds: 900_000 })
    ));
    let setup = setup.resume(made(21));
    assert_eq!(result(setup.resume(failed(1))), Ok(CredentialsProvider { inner: 21 }));
}

#[test]
fn sdk_chain_fails_with_either_call() {
    let setup = initialized(CredentialsProvider::new_rust_sdk_default_chain(&ALLOCATOR));
    assert_eq!(result(setup.resume(failed(8))), Err(Error { code: 8 }));
    let setup = initialized(CredentialsProvider::new_rust_sdk_default_chain(&ALLOCATOR));
    assert_eq!(result(setup.resume(made(20)).resume(failed(9))), Err(Error { code: 9 }));
}

#[test]
fn replies() {
    assert_eq!(CrtReply { object: 4, last_error: 5 }.ok_or_last_error(), Ok(4));
    assert_eq!(failed(5).ok_or_last_error(), Err(Error { code: 5 }));
}

#[test]
fn debug_output_is_redacted() {
    assert_eq!(
        static_options(Some("token")).fmt(),
        "CredentialsProviderStaticOptions { access_key_id: \"** redacted **\", \
         secret_access_key: \"** redacted **\", session_token: Some(\"** redacted **\") }"
    );
    assert_eq!(
        static_options(None).fmt(),
        "CredentialsProviderStaticOptions { access_key_id: \"** redacted **\", \
         secret_access_key: \"** redacted **\", session_token: None }"
    );
    let shown = static_options(Some("token")).redacted();
    assert_eq!(shown.access_key_id, "** redacted **");
    assert_eq!(shown.secret_access_key, "** redacted **");
    assert_eq!(shown.session_token, Some("** redacted **"));
    assert_eq!(static_options(None).redacted().session_token, None);
}

fn credentials(session_token: Option<&str>, expiry: Option<Expiry>) -> Credentials {
    Credentials {
        access_key_id: "id".to_string(),
        secret_access_key: "secret".to_string(),
        session_token: session_token.map(str::to_string),
        expiry,
    }
}

#[test]
fn expirations() {
    let at = |seconds, nanos| expiration_timepoint_seconds(Some(Expiry::SinceEpoch { seconds, nanos }));
    assert_eq!(at(1_700_000_000, 999_999_999), 1_700_000_000);
    assert_eq!(at(0, 0), 0);
    assert_eq!(expiration_timepoint_seconds(Some(Expiry::BeforeEpoch)), u64::MAX);
    assert_eq!(expiration_timepoint_seconds(None), u64::MAX);
}

#[test]
fn options_hand_over_credentials() {
    let expiry = Some(Expiry::SinceEpoch { seconds: 60, nanos: 5 });
    let with_token = credentials(Some("token"), expiry);
    let options = credentials_options(&with_token);
    assert!(matches!(options.access_key_id_cursor, ByteCursor::Text("id")));
    assert!(matches!(options.secret_access_key_cursor, ByteCursor::Text("secret")));
    assert!(matches!(options.session_token_cursor, ByteCursor::Text("token")));
    assert_eq!(options.expiration_timepoint_seconds, 60);
    let without = credentials(None, None);
    let options = credentials_options(&without);
    assert!(matches!(options.session_token_cursor, ByteCursor::Null));
    assert_eq!(options.expiration_timepoint_seconds, u64::MAX);
}

#[test]
fn queries() {
    assert_eq!(start_query(true), QueryAction::Fetch);
    assert_eq!(start_query(false), QueryAction::Return { status: OpStatus::Failure });
    let fetched = credentials(None, None);
    assert!(matches!(
        finish_query(Some(&fetched)),
        AnswerAction::Deliver { options, status: OpStatus::Success }
            if matches!(options.access_key_id_cursor, ByteCursor::Text("id"))
    ));
    assert!(matches!(finish_query(None), AnswerAction::Return { status: OpStatus::Failure }));
}
