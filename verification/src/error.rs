//! What can go wrong, and what the user is told about it.

use crate::completion::Completion;
use crate::text::{decimal, push_decimal, push_str, string_of};
use vstd::prelude::*;

verus! {

/// The operation during which a channel failed.
#[derive(Debug, Clone, Copy, PartialEq, Eq, Structural)]
pub enum Operation {
    /// Running a command line.
    Command,
    /// Listing what a word may be completed to.
    Completion,
}

/// The kinds of failure.
#[derive(Debug)]
pub enum SshError {
    /// The server id has a connection already.
    AlreadyConnected,
    /// The server id has no connection.
    NotConnected,
    /// Not exactly one of password and key path was given.
    MissingCredential,
    /// The server refused the connection.
    Unreachable { host: String, port: u16 },
    /// The server did not answer in time.
    Timeout { host: String, port: u16 },
    /// No route leads to the server.
    NoRoute { host: String, port: u16 },
    /// The transport failed in another way.
    OtherTransport { detail: String },
    /// The server turned the credential down, or authentication broke off
    /// for the given reason.
    AuthFailed { reason: Option<String> },
    /// The private key could not be read.
    KeyUnreadable { detail: String },
    /// No channel could be opened on a session that still stands.
    ChannelOpenFailed { operation: Operation, detail: String },
    /// The server did not take the command.
    ExecFailed { operation: Operation, detail: String },
    /// No channel could be opened because the session is gone.
    TransportLost { detail: String },
}

/// A failure, with its texts as sequences of characters.
pub enum ErrorView {
    AlreadyConnected,
    NotConnected,
    MissingCredential,
    Unreachable { host: Seq<char>, port: u16 },
    Timeout { host: Seq<char>, port: u16 },
    NoRoute { host: Seq<char>, port: u16 },
    OtherTransport { detail: Seq<char> },
    AuthFailed { reason: Option<Seq<char>> },
    KeyUnreadable { detail: Seq<char> },
    ChannelOpenFailed { operation: Operation, detail: Seq<char> },
    ExecFailed { operation: Operation, detail: Seq<char> },
    TransportLost { detail: Seq<char> },
}

impl View for SshError {
    type V = ErrorView;

    open spec fn view(&self) -> ErrorView {
        match *self {
            SshError::AlreadyConnected => ErrorView::AlreadyConnected,
            SshError::NotConnected => ErrorView::NotConnected,
            SshError::MissingCredential => ErrorView::MissingCredential,
            SshError::Unreachable { host, port } => ErrorView::Unreachable { host: host@, port },
            SshError::Timeout { host, port } => ErrorView::Timeout { host: host@, port },
            SshError::NoRoute { host, port } => ErrorView::NoRoute { host: host@, port },
            SshError::OtherTransport { detail } => ErrorView::OtherTransport { detail: detail@ },
            SshError::AuthFailed { reason } => ErrorView::AuthFailed {
                reason: match reason {
                    Some(d) => Some(d@),
                    None => None,
                },
            },
            SshError::KeyUnreadable { detail } => ErrorView::KeyUnreadable { detail: detail@ },
            SshError::ChannelOpenFailed { operation, detail } => ErrorView::ChannelOpenFailed {
                operation,
                detail: detail@,
            },
            SshError::ExecFailed { operation, detail } => ErrorView::ExecFailed {
                operation,
                detail: detail@,
            },
            SshError::TransportLost { detail } => ErrorView::TransportLost { detail: detail@ },
        }
    }
}

/// `host:port`.
pub open spec fn endpoint(host: Seq<char>, port: u16) -> Seq<char> {
    host + seq![':'] + decimal(port as nat)
}

/// Appends `host:port` to `out`.
pub fn push_endpoint(out: &mut Vec<char>, host: &str, port: u16)
    ensures
        final(out)@ == old(out)@ + endpoint(host@, port),
{
    push_str(out, host);
    out.push(':');
    push_decimal(out, port);
    assert(out@ == old(out)@ + endpoint(host@, port));
}

impl ErrorView {
    /// What the user is told about the failure.
    pub open spec fn message(self) -> Seq<char> {
        match self {
            ErrorView::AlreadyConnected => "服务器已连接"@,
            ErrorView::NotConnected => "服务器未连接"@,
            ErrorView::MissingCredential => "必须提供密码或密钥路径"@,
            ErrorView::Unreachable { host, port } => "无法连接到服务器 "@ + endpoint(host, port)
                + "，请检查主机地址和端口是否正确"@,
            ErrorView::Timeout { host, port } => "连接超时，无法连接到服务器 "@ + endpoint(
                host,
                port,
            ),
            ErrorView::NoRoute { host, port } => "无法访问服务器 "@ + endpoint(host, port)
                + "，请检查网络连接"@,
            ErrorView::OtherTransport { detail } => "连接失败: "@ + detail,
            ErrorView::AuthFailed { reason } => match reason {
                Some(d) => "身份验证错误: "@ + d,
                None => "身份验证失败，请检查用户名、密码或密钥是否正确"@,
            },
            ErrorView::KeyUnreadable { detail } => "加载密钥文件失败: "@ + detail
                + "，请检查密钥文件路径是否正确"@,
            ErrorView::ChannelOpenFailed { operation, detail } => match operation {
                Operation::Command => "打开通道失败: "@ + detail + "，连接可能已断开"@,
                Operation::Completion => "打开通道失败: "@ + detail,
            },
            ErrorView::ExecFailed { operation, detail } => match operation {
                Operation::Command => "执行命令失败: "@ + detail,
                Operation::Completion => "执行补全命令失败: "@ + detail,
            },
            ErrorView::TransportLost { detail } => "打开通道失败: "@ + detail
                + "，连接可能已断开"@,
        }
    }
}

impl SshError {
    /// What the user is told about the failure.
    pub fn message(&self) -> (text: String)
        ensures
            text@ == self@.message(),
    {
        let mut out: Vec<char> = Vec::new();
        match self {
            SshError::AlreadyConnected => {
                push_str(&mut out, "服务器已连接");
            },
            SshError::NotConnected => {
                push_str(&mut out, "服务器未连接");
            },
            SshError::MissingCredential => {
                push_str(&mut out, "必须提供密码或密钥路径");
            },
            SshError::Unreachable { host, port } => {
                push_str(&mut out, "无法连接到服务器 ");
                push_endpoint(&mut out, host.as_str(), *port);
                push_str(&mut out, "，请检查主机地址和端口是否正确");
            },
            SshError::Timeout { host, port } => {
                push_str(&mut out, "连接超时，无法连接到服务器 ");
                push_endpoint(&mut out, host.as_str(), *port);
            },
            SshError::NoRoute { host, port } => {
                push_str(&mut out, "无法访问服务器 ");
                push_endpoint(&mut out, host.as_str(), *port);
                push_str(&mut out, "，请检查网络连接");
            },
            SshError::OtherTransport { detail } => {
                push_str(&mut out, "连接失败: ");
                push_str(&mut out, detail.as_str());
            },
            SshError::AuthFailed { reason } => match reason {
                Some(d) => {
                    push_str(&mut out, "身份验证错误: ");
                    push_str(&mut out, d.as_str());
                },
                None => {
                    push_str(&mut out, "身份验证失败，请检查用户名、密码或密钥是否正确");
                },
            },
            SshError::KeyUnreadable { detail } => {
                push_str(&mut out, "加载密钥文件失败: ");
                push_str(&mut out, detail.as_str());
                push_str(&mut out, "，请检查密钥文件路径是否正确");
            },
            SshError::ChannelOpenFailed { operation, detail } => {
                push_str(&mut out, "打开通道失败: ");
                push_str(&mut out, detail.as_str());
                match operation {
                    Operation::Command => {
                        push_str(&mut out, "，连接可能已断开");
                    },
                    Operation::Completion => {},
                }
            },
            SshError::ExecFailed { operation, detail } => {
                match operation {
                    Operation::Command => {
                        push_str(&mut out, "执行命令失败: ");
                    },
                    Operation::Completion => {
                        push_str(&mut out, "执行补全命令失败: ");
                    },
                }
                push_str(&mut out, detail.as_str());
            },
            SshError::TransportLost { detail } => {
                push_str(&mut out, "打开通道失败: ");
                push_str(&mut out, detail.as_str());
                push_str(&mut out, "，连接可能已断开");
            },
        }
        assert(out@ == self@.message());
        string_of(out.as_slice())
    }
}

} // verus!
