//! How credentials providers are made.
//!
//! A provider is made by a few calls into the CRT, a C library. Which calls, with which
//! arguments, and what comes of their replies is worked out here; the calls themselves are made
//! by the caller. The CRT's objects are known here by their addresses, of which zero is none.
pub mod delegate;

use vstd::prelude::*;

verus! {

/// How long the credentials of the SDK's chain are cached, in milliseconds: fifteen minutes, as
/// long as the CRT's own default chain caches them.
pub const SDK_CHAIN_REFRESH_MILLISECONDS: u64 = 900_000;

/// What stands for a secret in debug output.
pub const REDACTED: &'static str = "** redacted **";

/// An allocator of the CRT.
#[derive(Debug, Clone, Copy, PartialEq, Eq, Structural)]
pub struct Allocator {
    pub inner: usize,
}

/// A client bootstrap of the CRT.
#[derive(Debug, PartialEq, Eq, Structural)]
pub struct ClientBootstrap {
    pub inner: usize,
}

/// An error of the CRT, by its number.
#[derive(Debug, Clone, Copy, PartialEq, Eq, Structural)]
pub struct Error {
    pub code: i32,
}

/// Options for creating a default credentials provider
#[derive(Debug)]
pub struct CredentialsProviderChainDefaultOptions<'a> {
    /// The client bootstrap this credentials provider should use to setup channels
    pub bootstrap: &'a mut ClientBootstrap,
}

/// Options for creating a profile credentials provider
#[derive(Debug)]
pub struct CredentialsProviderProfileOptions<'a> {
    /// The client bootstrap this credentials provider should use to setup channels
    pub bootstrap: &'a mut ClientBootstrap,
    /// The name of profile to use.
    pub profile_name_override: &'a str,
}

/// Options for creating a static credentials provider
pub struct CredentialsProviderStaticOptions<'a> {
    /// AWS access key ID
    pub access_key_id: &'a str,
    /// AWS secret access key
    pub secret_access_key: &'a str,
    /// AWS session token (only required for some credentials sources, e.g. STS)
    pub session_token: Option<&'a str>,
}

/// What may be shown of static options.
#[derive(Debug)]
pub struct RedactedStaticOptions {
    pub access_key_id: &'static str,
    pub secret_access_key: &'static str,
    pub session_token: Option<&'static str>,
}

impl<'a> CredentialsProviderStaticOptions<'a> {
    /// The options as debug output, on one line.
    pub open spec fn debug_text(self) -> Seq<char> {
        "CredentialsProviderStaticOptions { access_key_id: \""@ + REDACTED@
            + "\", secret_access_key: \""@ + REDACTED@ + "\", session_token: "@ + (
        match self.session_token {
            Some(_) => "Some(\""@ + REDACTED@ + "\")"@,
            None => "None"@,
        }) + " }"@
    }

    /// What may be shown of the options: which of them there are.
    pub fn redacted(&self) -> (r: RedactedStaticOptions)
        ensures
            r.access_key_id@ == REDACTED@,
            r.secret_access_key@ == REDACTED@,
            r.session_token is Some <==> self.session_token is Some,
            r.session_token matches Some(token) ==> token@ == REDACTED@,
            REDACTED@ == "** redacted **"@,
    {
        RedactedStaticOptions {
            access_key_id: REDACTED,
            secret_access_key: REDACTED,
            session_token: match self.session_token {
                Some(_) => Some(REDACTED),
                None => None,
            },
        }
    }

    /// The options as debug output, on one line.
    pub fn fmt(&self) -> (r: String)
        ensures
            r@ == self.debug_text(),
    {
        let shown = self.redacted();
        let mut text = "CredentialsProviderStaticOptions { access_key_id: \"".to_owned();
        text.append(shown.access_key_id);
        text.append("\", secret_access_key: \"");
        text.append(shown.secret_access_key);
        text.append("\", session_token: ");
        match shown.session_token {
            Some(token) => {
                text.append("Some(\"");
                text.append(token);
                text.append("\")");
            },
            None => {
                text.append("None");
            },
        }
        text.append(" }");
        text
    }
}

/// Text as the CRT takes it: an address and a length, or neither.
#[derive(Debug, Clone, Copy)]
pub enum ByteCursor<'a> {
    /// No address, and the length zero.
    Null,
    /// The address and the length of the text.
    Text(&'a str),
}

impl<'a> ByteCursor<'a> {
    /// The text that is passed: none is passed as no characters.
    pub open spec fn text(self) -> Seq<char> {
        match self {
            ByteCursor::Null => seq![],
            ByteCursor::Text(text) => text@,
        }
    }

    /// A cursor over optional text.
    pub fn optional(text: Option<&'a str>) -> (r: ByteCursor<'a>)
        ensures
            r == (match text {
                Some(t) => ByteCursor::Text(t),
                None => ByteCursor::Null,
            }),
    {
        match text {
            Some(t) => ByteCursor::Text(t),
            None => ByteCursor::Null,
        }
    }
}

/// Where the credentials of a provider come from.
#[derive(Debug, Clone, Copy)]
pub enum CredentialsSource<'a> {
    /// The CRT's default chain.
    ChainDefault { bootstrap: usize },
    /// Nowhere: requests are not signed.
    Anonymous,
    /// A profile of the configuration files.
    Profile { bootstrap: usize, profile_name_override: ByteCursor<'a> },
    /// The options themselves.
    Static {
        access_key_id: ByteCursor<'a>,
        secret_access_key: ByteCursor<'a>,
        session_token: ByteCursor<'a>,
    },
    /// The default chain of the SDK, asked through a delegate.
    SdkDefaultChain,
}

/// A call into the CRT.
#[derive(Debug, Clone, Copy)]
pub enum CrtCall<'a> {
    /// Initialize the authentication library. Has no result.
    InitAuthLibrary { allocator: Allocator },
    /// Make a provider for a source.
    NewProvider { allocator: Allocator, source: CredentialsSource<'a> },
    /// Make a provider that caches what `provider` provides.
    NewCached { allocator: Allocator, provider: usize, refresh_time_in_milliseconds: u64 },
}

/// What comes back from a call into the CRT.
#[derive(Debug, Clone, Copy, PartialEq, Eq, Structural)]
pub struct CrtReply {
    /// The address of what was made, or zero.
    pub object: usize,
    /// The number of the last error. It counts where nothing was made.
    pub last_error: i32,
}

impl CrtReply {
    /// What a call made, or why it made nothing.
    pub open spec fn result(self) -> Result<usize, Error> {
        if self.object != 0 {
            Ok(self.object)
        } else {
            Err(Error { code: self.last_error })
        }
    }

    /// What the call made, or why it made nothing.
    pub fn ok_or_last_error(self) -> (r: Result<usize, Error>)
        ensures
            r == self.result(),
            self.object != 0 ==> r == Ok::<usize, Error>(self.object),
            self.object == 0 ==> r == Err::<usize, Error>(Error { code: self.last_error }),
    {
        if self.object != 0 {
            Ok(self.object)
        } else {
            Err(Error { code: self.last_error })
        }
    }
}

/// A credentials provider is an object that has an asynchronous query function for retrieving AWS
/// credentials
#[derive(Debug, PartialEq, Eq, Structural)]
pub struct CredentialsProvider {
    pub inner: usize,
}

/// How far a provider has been made.
#[derive(Debug)]
pub enum ProviderSetup<'a> {
    /// The authentication library is to be initialized.
    Starting { allocator: Allocator, source: CredentialsSource<'a> },
    /// The provider is to be made.
    Creating { allocator: Allocator, source: CredentialsSource<'a> },
    /// What `delegate` provides is to be cached.
    Caching { allocator: Allocator, delegate: usize },
    /// There is nothing left to do.
    Finished { result: Result<CredentialsProvider, Error> },
}

/// The provider that a reply brings.
pub open spec fn provider_of(reply: CrtReply) -> Result<CredentialsProvider, Error> {
    match reply.result() {
        Ok(inner) => Ok(CredentialsProvider { inner }),
        Err(error) => Err(error),
    }
}

impl<'a> ProviderSetup<'a> {
    /// The call that comes next.
    pub open spec fn call(self) -> Option<CrtCall<'a>> {
        match self {
            ProviderSetup::Starting { allocator, .. } => Some(
                CrtCall::InitAuthLibrary { allocator },
            ),
            ProviderSetup::Creating { allocator, source } => Some(
                CrtCall::NewProvider { allocator, source },
            ),
            ProviderSetup::Caching { allocator, delegate } => Some(
                CrtCall::NewCached {
                    allocator,
                    provider: delegate,
                    refresh_time_in_milliseconds: SDK_CHAIN_REFRESH_MILLISECONDS,
                },
            ),
            ProviderSetup::Finished { .. } => None,
        }
    }

    /// How far the provider has been made once the next call was answered.
    pub open spec fn after(self, reply: CrtReply) -> Self {
        match self {
            ProviderSetup::Starting { allocator, source } => ProviderSetup::Creating {
                allocator,
                source,
            },
            ProviderSetup::Creating { allocator, source } => match (source, reply.result()) {
                (CredentialsSource::SdkDefaultChain, Ok(delegate)) => ProviderSetup::Caching {
                    allocator,
                    delegate,
                },
                _ => ProviderSetup::Finished { result: provider_of(reply) },
            },
            ProviderSetup::Caching { .. } => ProviderSetup::Finished { result: provider_of(reply) },
            ProviderSetup::Finished { .. } => self,
        }
    }

    /// How far the provider has been made once the next calls were answered, one by one.
    pub open spec fn after_all(self, replies: Seq<CrtReply>) -> Self
        decreases replies.len(),
    {
        if replies.len() == 0 {
            self
        } else {
            self.after(replies.first()).after_all(replies.drop_first())
        }
    }

    /// The call to make next. There is none once the provider is made or has failed.
    pub fn next_call(&self) -> (r: Option<CrtCall<'a>>)
        ensures
            r == self.call(),
            self matches ProviderSetup::Caching { allocator, delegate } ==> r == Some(
                CrtCall::NewCached {
                    allocator: *allocator,
                    provider: *delegate,
                    refresh_time_in_milliseconds: 900_000,
                },
            ),
    {
        match self {
            ProviderSetup::Starting { allocator, .. } => Some(
                CrtCall::InitAuthLibrary { allocator: *allocator },
            ),
            ProviderSetup::Creating { allocator, source } => Some(
                CrtCall::NewProvider { allocator: *allocator, source: *source },
            ),
            ProviderSetup::Caching { allocator, delegate } => Some(
                CrtCall::NewCached {
                    allocator: *allocator,
                    provider: *delegate,
                    refresh_time_in_milliseconds: SDK_CHAIN_REFRESH_MILLISECONDS,
                },
            ),
            ProviderSetup::Finished { .. } => None,
        }
    }

    /// Takes the reply to the next call. A call that made nothing ends the setup with the CRT's
    /// last error; initializing the library cannot fail.
    pub fn resume(self, reply: CrtReply) -> (r: Self)
        ensures
            r == self.after(reply),
            (self is Caching || (self matches ProviderSetup::Creating { source, .. } && !(source
                is SdkDefaultChain))) && reply.object != 0 ==> r == (ProviderSetup::Finished {
                result: Ok(CredentialsProvider { inner: reply.object }),
            }),
            (self is Caching || self is Creating) && reply.object == 0 ==> r == (
            ProviderSetup::Finished { result: Err(Error { code: reply.last_error }) }),
    {
        match self {
            ProviderSetup::Starting { allocator, source } => ProviderSetup::Creating {
                allocator,
                source,
            },
            ProviderSetup::Creating { allocator, source } => match (
                source,
                reply.ok_or_last_error(),
            ) {
                (CredentialsSource::SdkDefaultChain, Ok(delegate)) => ProviderSetup::Caching {
                    allocator,
                    delegate,
                },
                (_, Ok(inner)) => ProviderSetup::Finished {
                    result: Ok(CredentialsProvider { inner }),
                },
                (_, Err(error)) => ProviderSetup::Finished { result: Err(error) },
            },
            ProviderSetup::Caching { .. } => match reply.ok_or_last_error() {
                Ok(inner) => ProviderSetup::Finished { result: Ok(CredentialsProvider { inner }) },
                Err(error) => ProviderSetup::Finished { result: Err(error) },
            },
            ProviderSetup::Finished { result } => ProviderSetup::Finished { result },
        }
    }
}

/// Whichever provider is made, the authentication library is initialized before any other call.
pub proof fn law_library_is_initialized_first<'a>(
    allocator: Allocator,
    source: CredentialsSource<'a>,
    reply: CrtReply,
)
    ensures
        ({
            let setup = ProviderSetup::Starting { allocator, source };
            &&& setup.call() == Some(CrtCall::InitAuthLibrary { allocator })
            &&& setup.after(reply).call() == Some(CrtCall::NewProvider { allocator, source })
        }),
{
}

/// A provider for any source but the SDK's chain takes one call after the library is
/// initialized, and is the object that that call made, at its whole address. Where it made
/// nothing, the CRT's last error is the result.
pub proof fn law_provider_is_what_was_made<'a>(
    allocator: Allocator,
    source: CredentialsSource<'a>,
    initialized: CrtReply,
    made: CrtReply,
)
    requires
        !(source is SdkDefaultChain),
    ensures
        (ProviderSetup::Starting { allocator, source }).after_all(seq![initialized, made]) == (
        ProviderSetup::Finished { result: provider_of(made) }),
        made.object != 0 ==> provider_of(made) == Ok::<CredentialsProvider, Error>(
            CredentialsProvider { inner: made.object },
        ),
        made.object == 0 ==> provider_of(made) == Err::<CredentialsProvider, Error>(
            Error { code: made.last_error },
        ),
{
    reveal_with_fuel(ProviderSetup::after_all, 3);
    let replies = seq![initialized, made];
    assert(replies.drop_first() =~= seq![made]);
    assert(replies.drop_first().drop_first() =~= Seq::<CrtReply>::empty());
}

/// A provider for the SDK's chain is a cache in front of a delegate: it is made from the delegate
/// once that was made, refreshes it every fifteen minutes, and is the result. Whichever of the
/// two was not made, its error is the result, and nothing is cached without a delegate.
pub proof fn law_sdk_chain_is_cached(
    allocator: Allocator,
    initialized: CrtReply,
    delegate: CrtReply,
    cached: CrtReply,
)
    ensures
        ({
            let source = CredentialsSource::SdkDefaultChain;
            let setup = ProviderSetup::Starting { allocator, source };
            let created = setup.after(initialized).after(delegate);
            &&& delegate.object != 0 ==> {
                &&& created.call() == Some(
                    CrtCall::NewCached {
                        allocator,
                        provider: delegate.object,
                        refresh_time_in_milliseconds: (15 * 60 * 1000) as u64,
                    },
                )
                &&& cached.object != 0 ==> setup.after_all(seq![initialized, delegate, cached]) == (
                ProviderSetup::Finished { result: Ok(CredentialsProvider { inner: cached.object }) })
                &&& cached.object == 0 ==> setup.after_all(seq![initialized, delegate, cached]) == (
                ProviderSetup::Finished { result: Err(Error { code: cached.last_error }) })
            }
            &&& delegate.object == 0 ==> created == (ProviderSetup::Finished {
                result: Err(Error { code: delegate.last_error }),
            })
        }),
{
    reveal_with_fuel(ProviderSetup::after_all, 4);
    let replies = seq![initialized, delegate, cached];
    assert(replies.drop_first() =~= seq![delegate, cached]);
    assert(replies.drop_first().drop_first() =~= seq![cached]);
    assert(replies.drop_first().drop_first().drop_first() =~= Seq::<CrtReply>::empty());
}

/// Whatever setup is under way, the reply to its last call decides its result: an object is the
/// provider, at its whole address, and no object is the CRT's last error. The last call is the
/// one that makes a provider for any source but the SDK's chain, or the one that caches.
pub proof fn law_last_reply_is_the_result<'a>(setup: ProviderSetup<'a>, reply: CrtReply)
    requires
        setup is Caching || (setup matches ProviderSetup::Creating { source, .. } && !(source
            is SdkDefaultChain)),
    ensures
        setup.after(reply) matches ProviderSetup::Finished { result } && match result {
            Ok(provider) => reply.object != 0 && provider.inner == reply.object,
            Err(error) => reply.object == 0 && error.code == reply.last_error,
        },
{
}

/// Setups whose last calls made different objects have different providers, and those whose last
/// calls failed differently have different errors.
pub proof fn law_results_tell_replies_apart<'a>(setup: ProviderSetup<'a>, a: CrtReply, b: CrtReply)
    requires
        setup is Caching || (setup matches ProviderSetup::Creating { source, .. } && !(source
            is SdkDefaultChain)),
        setup.after(a) == setup.after(b),
    ensures
        a.object == b.object,
        a.object == 0 ==> a.last_error == b.last_error,
{
}

/// The calls that are made are for the allocator and the source that the setup began with.
pub proof fn law_calls_are_for_the_source<'a>(
    allocator: Allocator,
    source: CredentialsSource<'a>,
    initialized: CrtReply,
    delegate: CrtReply,
)
    ensures
        ({
            let setup = ProviderSetup::Starting { allocator, source };
            let created = setup.after(initialized);
            let cached = created.after(delegate);
            &&& setup.call() matches Some(CrtCall::InitAuthLibrary { allocator: a }) && a.inner
                == allocator.inner
            &&& created.call() matches Some(CrtCall::NewProvider { allocator: a, source: s }) && a
                == allocator && s == source
            &&& cached.call() is Some <==> source is SdkDefaultChain && delegate.object != 0
            &&& cached.call() matches Some(call) ==> call == (CrtCall::NewCached {
                allocator,
                provider: delegate.object,
                refresh_time_in_milliseconds: 900_000,
            })
        }),
{
}

/// A setup that has finished makes no more calls, and its result stays.
pub proof fn law_result_is_final(setup: ProviderSetup<'_>, replies: Seq<CrtReply>)
    requires
        setup is Finished,
    ensures
        setup.call() is None,
        setup.after_all(replies) == setup,
    decreases replies.len(),
{
    if replies.len() > 0 {
        law_result_is_final(setup.after(replies.first()), replies.drop_first());
    }
}

/// Debug output tells static options apart by nothing but whether there is a session token.
pub proof fn law_debug_output_hides_secrets<'a>(
    a: CredentialsProviderStaticOptions<'a>,
    b: CredentialsProviderStaticOptions<'a>,
)
    requires
        a.session_token is Some <==> b.session_token is Some,
    ensures
        a.debug_text() == b.debug_text(),
{
}

/// Debug output names the fields and shows none of what they hold.
pub proof fn law_debug_output(options: CredentialsProviderStaticOptions<'_>)
    ensures
        options.session_token is Some ==> options.debug_text()
            == "CredentialsProviderStaticOptions { access_key_id: \"** redacted **\", secret_access_key: \"** redacted **\", session_token: Some(\"** redacted **\") }"@,
        options.session_token is None ==> options.debug_text()
            == "CredentialsProviderStaticOptions { access_key_id: \"** redacted **\", secret_access_key: \"** redacted **\", session_token: None }"@,
{
    reveal_strlit("CredentialsProviderStaticOptions { access_key_id: \"");
    reveal_strlit("** redacted **");
    reveal_strlit("\", secret_access_key: \"");
    reveal_strlit("\", session_token: ");
    reveal_strlit("Some(\"");
    reveal_strlit("\")");
    reveal_strlit("None");
    reveal_strlit(" }");
    reveal_strlit(
        "CredentialsProviderStaticOptions { access_key_id: \"** redacted **\", secret_access_key: \"** redacted **\", session_token: Some(\"** redacted **\") }",
    );
    reveal_strlit(
        "CredentialsProviderStaticOptions { access_key_id: \"** redacted **\", secret_access_key: \"** redacted **\", session_token: None }",
    );
}

impl CredentialsProvider {
    /// Creates the default credential provider chain as used by most AWS SDKs
    pub fn new_chain_default<'a>(
        allocator: &Allocator,
        options: CredentialsProviderChainDefaultOptions<'a>,
    ) -> (r: ProviderSetup<'a>)
        ensures
            r == (ProviderSetup::Starting {
                allocator: *allocator,
                source: CredentialsSource::ChainDefault { bootstrap: old(options.bootstrap).inner },
            }),
            *final(options.bootstrap) == *old(options.bootstrap),
    {
        ProviderSetup::Starting {
            allocator: *allocator,
            source: CredentialsSource::ChainDefault { bootstrap: options.bootstrap.inner },
        }
    }

    /// Creates the anonymous credential provider.
    /// Anonymous credentials provider gives you anonymous credentials which can be used to skip the signing process.
    pub fn new_anonymous(allocator: &Allocator) -> (r: ProviderSetup<'static>)
        ensures
            r == (ProviderSetup::Starting {
                allocator: *allocator,
                source: CredentialsSource::Anonymous,
            }),
    {
        ProviderSetup::Starting { allocator: *allocator, source: CredentialsSource::Anonymous }
    }

    /// Creates the profile credential provider.
    pub fn new_profile<'a>(
        allocator: &Allocator,
        options: CredentialsProviderProfileOptions<'a>,
    ) -> (r: ProviderSetup<'a>)
        ensures
            r == (ProviderSetup::Starting {
                allocator: *allocator,
                source: CredentialsSource::Profile {
                    bootstrap: old(options.bootstrap).inner,
                    profile_name_override: ByteCursor::Text(options.profile_name_override),
                },
            }),
            *final(options.bootstrap) == *old(options.bootstrap),
    {
        ProviderSetup::Starting {
            allocator: *allocator,
            source: CredentialsSource::Profile {
                bootstrap: options.bootstrap.inner,
                profile_name_override: ByteCursor::Text(options.profile_name_override),
            },
        }
    }

    /// Creates a static credential provider that always returns the given credentials
    pub fn new_static<'a>(
        allocator: &Allocator,
        options: CredentialsProviderStaticOptions<'a>,
    ) -> (r: ProviderSetup<'a>)
        ensures
            r == (ProviderSetup::Starting {
                allocator: *allocator,
                source: CredentialsSource::Static {
                    access_key_id: ByteCursor::Text(options.access_key_id),
                    secret_access_key: ByteCursor::Text(options.secret_access_key),
                    session_token: match options.session_token {
                        Some(token) => ByteCursor::Text(token),
                        None => ByteCursor::Null,
                    },
                },
            }),
    {
        ProviderSetup::Starting {
            allocator: *allocator,
            source: CredentialsSource::Static {
                access_key_id: ByteCursor::Text(options.access_key_id),
                secret_access_key: ByteCursor::Text(options.secret_access_key),
                session_token: ByteCursor::optional(options.session_token),
            },
        }
    }

    /// Creates a new credential provider using AWS Rust SDK's default provider chain.
    pub fn new_rust_sdk_default_chain(allocator: &Allocator) -> (r: ProviderSetup<'static>)
        ensures
            r == (ProviderSetup::Starting {
                allocator: *allocator,
                source: CredentialsSource::SdkDefaultChain,
            }),
    {
        ProviderSetup::Starting {
            allocator: *allocator,
            source: CredentialsSource::SdkDefaultChain,
        }
    }
}

} // verus!
