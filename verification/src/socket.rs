//! Admission to the build-output websocket.

use vstd::prelude::*;
use crate::text::same_text;

verus! {

/// Why a websocket connection to the build output is refused (answered 401).
#[derive(Clone, Copy, Debug, PartialEq, Eq, Structural)]
pub enum SocketRejection {
    /// The query has no `token`.
    TokenRequired,
    /// No build is running.
    NoBuildRunning,
    /// The token is not the running build's socket token.
    InvalidToken,
}

impl SocketRejection {
    /// The body of the answer.
    pub fn message(&self) -> (m: String)
        ensures
            m@ == match *self {
                SocketRejection::TokenRequired => "Socket Token is Required"@,
                SocketRejection::NoBuildRunning => "No build is running"@,
                SocketRejection::InvalidToken => "Invalid token"@,
            },
    {
        match self {
            SocketRejection::TokenRequired => "Socket Token is Required".to_string(),
            SocketRejection::NoBuildRunning => "No build is running".to_string(),
            SocketRejection::InvalidToken => "Invalid token".to_string(),
        }
    }
}

/// Admits a connection: a token must be given, a build must be running, and the token
/// must be that build's socket token, checked in that order.
pub fn authorize_build_socket(token: Option<&str>, build_socket_token: Option<&str>) -> (r: Result<(), SocketRejection>)
    ensures
        token is None ==> r == Err::<(), SocketRejection>(SocketRejection::TokenRequired),
        token is Some && build_socket_token is None ==> r == Err::<(), SocketRejection>(SocketRejection::NoBuildRunning),
        match (token, build_socket_token) {
            (Some(t), Some(b)) => if t@ == b@ {
                r is Ok
            } else {
                r == Err::<(), SocketRejection>(SocketRejection::InvalidToken)
            },
            _ => true,
        },
{
    let t = match token {
        Some(t) => t,
        None => return Err(SocketRejection::TokenRequired),
    };
    let b = match build_socket_token {
        Some(b) => b,
        None => return Err(SocketRejection::NoBuildRunning),
    };
    if same_text(t, b) {
        Ok(())
    } else {
        Err(SocketRejection::InvalidToken)
    }
}

} // verus!
