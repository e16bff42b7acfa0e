//! Configuration of a run and the guard on interactive consent.

use vstd::prelude::*;
use crate::records::texts;

verus! {

/// What the updater was started to do.
#[derive(Debug, Clone, Copy, PartialEq, Eq, Structural)]
pub enum Command {
    /// Publish the looked-up address.
    SetRecord,
    /// Acquire the offline credential, with the user's consent.
    Authenticate,
    /// Show the looked-up address.
    IP,
}

/// The configuration of one run, fixed at startup.
#[derive(Debug)]
pub struct Opt {
    /// Path of the file with the application's client descriptor.
    pub secrets: String,
    /// Path of the token store.
    pub tokens: String,
    /// Token under which the provider recognises a repeated submission.
    pub change_id: Option<String>,
    /// Path of the cache file; without one the cache is off.
    pub cache: Option<String>,
    /// Update even where the cache already holds the address.
    pub cache_only_update: bool,
    pub project_id: String,
    pub zone_name: String,
    pub record_name: String,
    pub record_ttl: i32,
    pub record_type: String,
    pub command: Command,
}

/// Why a run cannot even begin.
#[derive(Debug, Clone, Copy, PartialEq, Eq, Structural)]
pub enum ConfigError {
    /// The credentials are not the JSON of a client-secrets file.
    Unparseable,
    /// The credentials hold neither an installed nor a web descriptor.
    NoClientDescriptor,
}

/// Picks the client descriptor to authenticate with: the installed
/// application's where there is one, else the web application's. The flag
/// tells whether the web descriptor was taken.
pub fn choose_client<T>(installed: Option<T>, web: Option<T>) -> (r: Result<(T, bool), ConfigError>)
    ensures
        r == match (installed, web) {
            (Some(x), _) => Ok::<(T, bool), ConfigError>((x, false)),
            (None, Some(x)) => Ok::<(T, bool), ConfigError>((x, true)),
            (None, None) => Err::<(T, bool), ConfigError>(ConfigError::NoClientDescriptor),
        },
{
    match installed {
        Some(x) => Ok((x, false)),
        None => match web {
            Some(x) => Ok((x, true)),
            None => Err(ConfigError::NoClientDescriptor),
        },
    }
}

/// `yup_oauth2::ApplicationSecret`, a client descriptor, carried through
/// as it was read: nothing is stated of what it holds.
#[verifier::external_type_specification]
#[verifier::external_body]
pub struct ExApplicationSecret(yup_oauth2::ApplicationSecret);

/// `serde_json::Error`, the reason why a text could not be read; nothing
/// is stated of what it holds.
#[verifier::external_type_specification]
#[verifier::external_body]
pub struct ExJsonError(serde_json::Error);

/// What a client-secrets text holds: nothing where it cannot be read as
/// one, else whether it has an installed and whether it has a web
/// descriptor, in this order.
pub uninterp spec fn secret_shape(content: Seq<char>) -> Option<(bool, bool)>;

/// Calls `serde_json::from_str` for a `yup_oauth2::ConsoleApplicationSecret`
/// and hands out its installed and its web descriptor, in this order.
/// Trusted: whether the text can be read, and which of the two descriptors
/// it holds, depends on the text alone.
#[verifier::external_body]
fn parse_console_secret(content: &str) -> (r: Result<
    (Option<yup_oauth2::ApplicationSecret>, Option<yup_oauth2::ApplicationSecret>),
    serde_json::Error,
>)
    ensures
        match r {
            Ok(pair) => secret_shape(content@) == Some((pair.0 is Some, pair.1 is Some)),
            Err(_) => secret_shape(content@) is None,
        },
{
    serde_json::from_str::<yup_oauth2::ConsoleApplicationSecret>(content).map(
        |s| (s.installed, s.web),
    )
}

/// The descriptor to take from a client-secrets text of this shape: the
/// web one only where there is no installed one.
pub open spec fn client_choice(shape: Option<(bool, bool)>) -> Result<bool, ConfigError> {
    match shape {
        None => Err(ConfigError::Unparseable),
        Some((true, _)) => Ok(false),
        Some((false, true)) => Ok(true),
        Some((false, false)) => Err(ConfigError::NoClientDescriptor),
    }
}

/// Reads a client-secrets text and picks the descriptor to authenticate
/// with. The flag tells whether the web descriptor was taken.
pub fn load_client(content: &str) -> (r: Result<(yup_oauth2::ApplicationSecret, bool), ConfigError>)
    ensures
        match r {
            Ok(taken) => client_choice(secret_shape(content@)) == Ok::<bool, ConfigError>(
                taken.1,
            ),
            Err(e) => client_choice(secret_shape(content@)) == Err::<bool, ConfigError>(e),
        },
{
    match parse_console_secret(content) {
        Ok(pair) => choose_client(pair.0, pair.1),
        Err(_) => Err(ConfigError::Unparseable),
    }
}

/// A capability that the session must hold before any remote call.
#[derive(Debug, Clone, Copy, PartialEq, Eq, Structural)]
pub enum RequiredScope {
    /// Reading the zone's records.
    DnsReadonly,
    /// Access to the cloud platform.
    CloudPlatform,
}

/// The URL that names a capability to the authorisation server.
pub open spec fn scope_text(scope: RequiredScope) -> Seq<char> {
    match scope {
        RequiredScope::DnsReadonly => "https://www.googleapis.com/auth/ndev.clouddns.readonly"@,
        RequiredScope::CloudPlatform => "https://www.googleapis.com/auth/cloud-platform"@,
    }
}

/// The capabilities of a run, in the order in which they are requested.
pub open spec fn required_scope_texts() -> Seq<Seq<char>> {
    seq![scope_text(RequiredScope::DnsReadonly), scope_text(RequiredScope::CloudPlatform)]
}

/// Calls `google_dns1::Scope::as_ref` on the variant that stands for
/// `scope`. Trusted: the result is the URL that the provider's client
/// library spells out for that variant in its `AsRef<str>` impl.
#[verifier::external_body]
fn scope_url(scope: RequiredScope) -> (r: String)
    ensures
        r@ == scope_text(scope),
{
    match scope {
        RequiredScope::DnsReadonly => google_dns1::Scope::NdevClouddnReadonly.as_ref().to_string(),
        RequiredScope::CloudPlatform => google_dns1::Scope::CloudPlatform.as_ref().to_string(),
    }
}

/// The capabilities to request of the session provider.
pub fn required_scopes() -> (r: Vec<String>)
    ensures
        texts(r@) == required_scope_texts(),
{
    let mut scopes: Vec<String> = Vec::new();
    scopes.push(scope_url(RequiredScope::DnsReadonly));
    scopes.push(scope_url(RequiredScope::CloudPlatform));
    assert(texts(scopes@) =~= required_scope_texts());
    scopes
}

/// What to do when the authorisation flow needs the user.
#[derive(Debug, Clone, Copy, PartialEq, Eq, Structural)]
pub enum Consent {
    /// Show the URL and wait for the user.
    Prompt,
    /// Fail the run as not authenticated, without any prompt.
    Refuse,
}

/// Guard on interactive consent: only a run that was started to
/// authenticate may ask the user.
#[derive(Debug, Clone, Copy, PartialEq, Eq, Structural)]
pub struct OptAuthenticatorDelegate {
    pub can_interact: bool,
}

impl OptAuthenticatorDelegate {
    /// The guard for a run with this configuration.
    pub fn from_opts(opt: &Opt) -> (r: OptAuthenticatorDelegate)
        ensures
            r.can_interact == (opt.command == Command::Authenticate),
    {
        OptAuthenticatorDelegate {
            can_interact: match opt.command {
                Command::Authenticate => true,
                _ => false,
            },
        }
    }

    /// Decides what happens when the user would have to open a URL.
    pub fn present_user_url(&self) -> (r: Consent)
        ensures
            r == if self.can_interact {
                Consent::Prompt
            } else {
                Consent::Refuse
            },
    {
        if self.can_interact {
            Consent::Prompt
        } else {
            Consent::Refuse
        }
    }
}

} // verus!
