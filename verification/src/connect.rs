//! Connecting: the address to dial, the credential to offer, and what is
//! made of a failure.

use crate::error::{endpoint, push_endpoint, ErrorView, SshError};
use crate::pool::{registered, ConnectionPool};
use crate::records::{option_view, ConnectSshParams, ConnectSshResult, SshConnection};
use crate::text::{chars_of, has_substring, mentions, string_of};
use vstd::prelude::*;

verus! {

/// The credential to authenticate with.
#[derive(Debug)]
pub enum Credential {
    /// The private key in the file at this path.
    KeyFile(String),
    /// This password.
    Password(String),
}

/// How an attempt to authenticate ended.
#[derive(Debug)]
pub enum AuthOutcome {
    /// The server took the credential.
    Accepted,
    /// The server turned the credential down.
    Rejected,
    /// The attempt broke off with this error text.
    Failed(String),
}

/// The address to dial: `host:port`.
pub fn connect_address(host: &str, port: u16) -> (address: String)
    ensures
        address@ == endpoint(host@, port),
{
    let mut out: Vec<char> = Vec::new();
    push_endpoint(&mut out, host, port);
    assert(Seq::<char>::empty() + endpoint(host@, port) == endpoint(host@, port));
    string_of(out.as_slice())
}

/// Picks the credential. Exactly one of key path and password must be
/// given.
pub fn select_credential(params: &ConnectSshParams) -> (chosen: Result<Credential, SshError>)
    ensures
        match chosen {
            Ok(Credential::KeyFile(path)) => params.password.is_none() && option_view(
                params.key_path,
            ) == Some(path@),
            Ok(Credential::Password(password)) => params.key_path.is_none() && option_view(
                params.password,
            ) == Some(password@),
            Err(e) => params.key_path.is_some() == params.password.is_some() && e@
                == ErrorView::MissingCredential,
        },
{
    match (&params.key_path, &params.password) {
        (Some(path), None) => Ok(Credential::KeyFile(path.clone())),
        (None, Some(password)) => Ok(Credential::Password(password.clone())),
        _ => Err(SshError::MissingCredential),
    }
}

/// The kind of a transport failure, read from its error text: a refused
/// connection, a timeout, a missing route, or something else.
pub open spec fn connect_failure(error_text: Seq<char>, host: Seq<char>, port: u16) -> ErrorView {
    if has_substring(error_text, "Connection refused"@) || has_substring(error_text, "无法连接"@) {
        ErrorView::Unreachable { host, port }
    } else if has_substring(error_text, "timeout"@) || has_substring(error_text, "超时"@) {
        ErrorView::Timeout { host, port }
    } else if has_substring(error_text, "No route to host"@) {
        ErrorView::NoRoute { host, port }
    } else {
        ErrorView::OtherTransport { detail: error_text }
    }
}

/// Tells the kind of a transport failure from its error text.
pub fn classify_connect_failure(error_text: &str, host: &str, port: u16) -> (e: SshError)
    ensures
        e@ == connect_failure(error_text@, host@, port),
{
    let text = chars_of(error_text);
    if mentions(text.as_slice(), "Connection refused") || mentions(text.as_slice(), "无法连接") {
        SshError::Unreachable { host: host.to_string(), port }
    } else if mentions(text.as_slice(), "timeout") || mentions(text.as_slice(), "超时") {
        SshError::Timeout { host: host.to_string(), port }
    } else if mentions(text.as_slice(), "No route to host") {
        SshError::NoRoute { host: host.to_string(), port }
    } else {
        SshError::OtherTransport { detail: error_text.to_string() }
    }
}

/// The failure reported where the private key cannot be read.
pub fn key_failure(error_text: &str) -> (e: SshError)
    ensures
        e@ == (ErrorView::KeyUnreadable { detail: error_text@ }),
{
    SshError::KeyUnreadable { detail: error_text.to_string() }
}

/// What an attempt to authenticate that broke off is reported as: a plain
/// rejection where the error text speaks of one, else a failure with the
/// text as its reason.
pub open spec fn auth_failure(error_text: Seq<char>) -> ErrorView {
    if has_substring(error_text, "Authentication failed"@) || has_substring(
        error_text,
        "认证失败"@,
    ) {
        ErrorView::AuthFailed { reason: None }
    } else {
        ErrorView::AuthFailed { reason: Some(error_text) }
    }
}

/// Tells whether authentication succeeded, and what failed if it did not.
pub fn classify_auth_outcome(outcome: &AuthOutcome) -> (r: Result<(), SshError>)
    ensures
        match *outcome {
            AuthOutcome::Accepted => r.is_ok(),
            AuthOutcome::Rejected => r matches Err(e) && e@ == (ErrorView::AuthFailed {
                reason: None,
            }),
            AuthOutcome::Failed(error_text) => r matches Err(e) && e@ == auth_failure(error_text@),
        },
{
    match outcome {
        AuthOutcome::Accepted => Ok(()),
        AuthOutcome::Rejected => Err(SshError::AuthFailed { reason: None }),
        AuthOutcome::Failed(error_text) => {
            let text = chars_of(error_text.as_str());
            if mentions(text.as_slice(), "Authentication failed") || mentions(
                text.as_slice(),
                "认证失败",
            ) {
                Err(SshError::AuthFailed { reason: None })
            } else {
                Err(SshError::AuthFailed { reason: Some(error_text.clone()) })
            }
        },
    }
}

/// Opens a connect request: it is refused where the server id has a
/// connection already, and else gives the address to dial.
pub fn begin_connect<S, L, T>(pool: &ConnectionPool<S, L, T>, params: &ConnectSshParams) -> (r:
    Result<String, SshError>)
    ensures
        match r {
            Ok(address) => !pool@.contains_key(params.server_id@) && address@ == endpoint(
                params.host@,
                params.port,
            ),
            Err(e) => pool@.contains_key(params.server_id@) && e@ == ErrorView::AlreadyConnected,
        },
{
    if pool.contains(params.server_id.as_str()) {
        Err(SshError::AlreadyConnected)
    } else {
        Ok(connect_address(params.host.as_str(), params.port))
    }
}

/// Stores an authenticated connection and reports success. Where the
/// server id has got a connection in the meantime, the registry stays as
/// it is and the connection comes back with the refusal.
pub fn register_connection<S, L, T>(
    pool: &mut ConnectionPool<S, L, T>,
    connection: SshConnection<S, L, T>,
) -> (r: Result<ConnectSshResult, (SshError, SshConnection<S, L, T>)>)
    ensures
        final(pool)@ == registered(old(pool)@, connection),
        match r {
            Ok(answer) => !old(pool)@.contains_key(connection.server_id@) && final(pool)@ == old(
                pool,
            )@.insert(connection.server_id@, connection) && answer.success
                && answer.connection_id@ == connection.server_id@ && option_view(answer.message)
                == Some("连接成功"@),
            Err((e, back)) => old(pool)@.contains_key(connection.server_id@) && final(pool)@
                == old(pool)@ && e@ == ErrorView::AlreadyConnected && back == connection,
        },
{
    let connection_id = connection.server_id.clone();
    match pool.insert(connection) {
        Ok(_) => Ok(
            ConnectSshResult {
                success: true,
                connection_id,
                message: Some("连接成功".to_string()),
            },
        ),
        Err(refused) => Err(refused),
    }
}

} // verus!
