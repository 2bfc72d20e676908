//! Stored credentials, and the steps of authenticating a session.
use vstd::prelude::*;
use crate::connection::AuthMethod;
use crate::trusted::{base64_standard_decode, decode_base64, string_from_utf8};

verus! {

/// Why a stored password could not be read.
#[derive(Debug, Clone, Copy, PartialEq, Eq, Structural)]
pub enum PasswordError {
    /// The stored text is not valid base64.
    InvalidBase64,
    /// The decoded bytes are not valid UTF-8.
    InvalidUtf8,
}

/// The password that a stored (base64-encoded) value holds.
pub open spec fn decode_password_spec(encoded: Seq<char>) -> Result<Seq<char>, PasswordError> {
    match base64_standard_decode(encoded) {
        None => Err(PasswordError::InvalidBase64),
        Some(b) => if vstd::utf8::valid_utf8(b) {
            Ok(vstd::utf8::decode_utf8(b))
        } else {
            Err(PasswordError::InvalidUtf8)
        },
    }
}

/// What the SSH connection logic keeps apart from the network.
pub struct SshService;

impl SshService {
    /// Decodes a stored password: base64 with the standard alphabet, then UTF-8.
    pub fn decode_password(encoded: &str) -> (r: Result<String, PasswordError>)
        ensures
            match r {
                Ok(s) => decode_password_spec(encoded@) == Ok::<Seq<char>, PasswordError>(s@),
                Err(e) => decode_password_spec(encoded@) == Err::<Seq<char>, PasswordError>(e),
            },
    {
        match decode_base64(encoded) {
            None => Err(PasswordError::InvalidBase64),
            Some(bytes) => match string_from_utf8(bytes) {
                Some(s) => Ok(s),
                None => Err(PasswordError::InvalidUtf8),
            },
        }
    }
}

/// Where an authentication stands: what the last action waits for.
#[derive(Debug, Clone, Copy, PartialEq, Eq, Structural)]
pub enum AuthState {
    /// The outcome of a password attempt.
    Password,
    /// The outcome of a key file attempt.
    KeyFile,
    /// Reaching the SSH agent and listing its identities.
    Agent,
    /// The outcome of trying the agent's identity `next`, of `count`.
    AgentIdentity { next: usize, count: usize },
    /// The session's answer to whether it is authenticated.
    Check,
    /// Nothing: authentication is over.
    Done,
}

/// What came of the last action.
#[derive(Debug, Clone, Copy, PartialEq, Eq, Structural)]
pub enum AuthEvent {
    /// The server accepted the attempt.
    Accepted,
    /// The server refused the attempt.
    Refused,
    /// The agent was reached and holds `count` identities.
    AgentReady { count: usize },
    /// There is no agent to open.
    AgentUnavailable,
    /// The agent could not be connected to.
    AgentUnreachable,
    /// The agent's identities could not be listed.
    AgentListFailed,
    /// The session's answer: whether it is authenticated.
    Authenticated(bool),
}

/// Why authentication failed.
#[derive(Debug, Clone, Copy, PartialEq, Eq, Structural)]
pub enum AuthFailure {
    /// The stored password could not be decoded.
    StoredPassword(PasswordError),
    PasswordRefused,
    KeyRefused,
    AgentUnavailable,
    AgentUnreachable,
    AgentListFailed,
    /// No identity of the agent was accepted.
    NoAgentIdentity,
    /// The attempts went through but the session is not authenticated.
    NotAuthenticated,
}

/// What authentication does next.
#[derive(Debug)]
pub enum AuthAction {
    /// Authenticate the connection's user with this password.
    TryPassword(String),
    /// Authenticate the connection's user with the private key at this path.
    TryKeyFile(String),
    /// Open the SSH agent, connect to it and list its identities.
    OpenAgent,
    /// Authenticate the connection's user with the agent's identity of this index.
    TryAgentIdentity(usize),
    /// Ask the session whether it is authenticated.
    CheckSession,
    /// Authentication succeeded.
    Succeed,
    /// Authentication failed.
    Fail(AuthFailure),
}

/// The first step of authenticating with `method`: a password is decoded and
/// tried, a key file tried, the agent opened.
pub open spec fn auth_start_post(method: AuthMethod, r: (AuthState, AuthAction)) -> bool {
    match method {
        AuthMethod::Password(encoded) => match decode_password_spec(encoded@) {
            Ok(p) => r.0 == AuthState::Password && (r.1 matches AuthAction::TryPassword(s) && s@ == p),
            Err(e) => r.0 == AuthState::Done && r.1 == AuthAction::Fail(AuthFailure::StoredPassword(e)),
        },
        AuthMethod::KeyFile(path) => r.0 == AuthState::KeyFile && (r.1 matches AuthAction::TryKeyFile(s)
            && s@ == path@),
        AuthMethod::Agent => r.0 == AuthState::Agent && r.1 == AuthAction::OpenAgent,
    }
}

/// The step after `event` in state `st`. An accepted password, key or agent
/// identity leads to asking the session; a refused identity to the next one,
/// until none is left; only the session's yes is success. Any event other
/// than those a state waits for counts as a failure of what it waits for.
pub open spec fn auth_next(st: AuthState, event: AuthEvent) -> (AuthState, AuthAction) {
    let fail = |f: AuthFailure| (AuthState::Done, AuthAction::Fail(f));
    match st {
        AuthState::Password => if event == AuthEvent::Accepted {
            (AuthState::Check, AuthAction::CheckSession)
        } else {
            fail(AuthFailure::PasswordRefused)
        },
        AuthState::KeyFile => if event == AuthEvent::Accepted {
            (AuthState::Check, AuthAction::CheckSession)
        } else {
            fail(AuthFailure::KeyRefused)
        },
        AuthState::Agent => match event {
            AuthEvent::AgentReady { count } => if count > 0 {
                (AuthState::AgentIdentity { next: 0, count }, AuthAction::TryAgentIdentity(0))
            } else {
                fail(AuthFailure::NoAgentIdentity)
            },
            AuthEvent::AgentUnavailable => fail(AuthFailure::AgentUnavailable),
            AuthEvent::AgentUnreachable => fail(AuthFailure::AgentUnreachable),
            _ => fail(AuthFailure::AgentListFailed),
        },
        AuthState::AgentIdentity { next, count } => if event == AuthEvent::Accepted {
            (AuthState::Check, AuthAction::CheckSession)
        } else if next + 1 < count {
            (
                AuthState::AgentIdentity { next: (next + 1) as usize, count },
                AuthAction::TryAgentIdentity((next + 1) as usize),
            )
        } else {
            fail(AuthFailure::NoAgentIdentity)
        },
        AuthState::Check => if event == AuthEvent::Authenticated(true) {
            (AuthState::Done, AuthAction::Succeed)
        } else {
            fail(AuthFailure::NotAuthenticated)
        },
        AuthState::Done => fail(AuthFailure::NotAuthenticated),
    }
}

impl SshService {
    /// The first step of authenticating a session with `method`.
    pub fn auth_start(method: &AuthMethod) -> (r: (AuthState, AuthAction))
        ensures
            auth_start_post(*method, r),
    {
        match method {
            AuthMethod::Password(encoded) => match Self::decode_password(encoded.as_str()) {
                Ok(p) => (AuthState::Password, AuthAction::TryPassword(p)),
                Err(e) => (AuthState::Done, AuthAction::Fail(AuthFailure::StoredPassword(e))),
            },
            AuthMethod::KeyFile(path) => (AuthState::KeyFile, AuthAction::TryKeyFile(path.clone())),
            AuthMethod::Agent => (AuthState::Agent, AuthAction::OpenAgent),
        }
    }

    /// The next step of an authentication in state `st` after `event`.
    pub fn auth_step(st: AuthState, event: AuthEvent) -> (r: (AuthState, AuthAction))
        ensures
            r == auth_next(st, event),
    {
        match st {
            AuthState::Password => if event == AuthEvent::Accepted {
                (AuthState::Check, AuthAction::CheckSession)
            } else {
                (AuthState::Done, AuthAction::Fail(AuthFailure::PasswordRefused))
            },
            AuthState::KeyFile => if event == AuthEvent::Accepted {
                (AuthState::Check, AuthAction::CheckSession)
            } else {
                (AuthState::Done, AuthAction::Fail(AuthFailure::KeyRefused))
            },
            AuthState::Agent => match event {
                AuthEvent::AgentReady { count } => if count > 0 {
                    (AuthState::AgentIdentity { next: 0, count }, AuthAction::TryAgentIdentity(0))
                } else {
                    (AuthState::Done, AuthAction::Fail(AuthFailure::NoAgentIdentity))
                },
                AuthEvent::AgentUnavailable => (AuthState::Done, AuthAction::Fail(AuthFailure::AgentUnavailable)),
                AuthEvent::AgentUnreachable => (AuthState::Done, AuthAction::Fail(AuthFailure::AgentUnreachable)),
                _ => (AuthState::Done, AuthAction::Fail(AuthFailure::AgentListFailed)),
            },
            AuthState::AgentIdentity { next, count } => if event == AuthEvent::Accepted {
                (AuthState::Check, AuthAction::CheckSession)
            } else if count > 0 && next < count - 1 {
                (AuthState::AgentIdentity { next: next + 1, count }, AuthAction::TryAgentIdentity(next + 1))
            } else {
                (AuthState::Done, AuthAction::Fail(AuthFailure::NoAgentIdentity))
            },
            AuthState::Check => if event == AuthEvent::Authenticated(true) {
                (AuthState::Done, AuthAction::Succeed)
            } else {
                (AuthState::Done, AuthAction::Fail(AuthFailure::NotAuthenticated))
            },
            AuthState::Done => (AuthState::Done, AuthAction::Fail(AuthFailure::NotAuthenticated)),
        }
    }
}

/// A state that a running authentication can be in: an agent identity's index
/// lies below the number of identities.
pub open spec fn auth_state_valid(st: AuthState) -> bool {
    st matches AuthState::AgentIdentity { next, count } ==> next < count
}

/// Authentication succeeds only on the session's own yes, asked after an
/// accepted attempt; every failure and success ends it.
pub proof fn law_success_only_when_session_says_so(st: AuthState, event: AuthEvent)
    ensures
        auth_next(st, event).1 == AuthAction::Succeed ==> st == AuthState::Check && event
            == AuthEvent::Authenticated(true),
        auth_next(st, event).0 == AuthState::Check ==> event == AuthEvent::Accepted,
        (auth_next(st, event).1 is Succeed || auth_next(st, event).1 is Fail) <==> auth_next(st, event).0
            == AuthState::Done,
{
}

/// Every step keeps the state valid, and the agent's identities are tried in
/// order, one after the other: a refused identity is followed by the next, and
/// the agent fails only once the last one was refused.
pub proof fn law_agent_identities_in_order(st: AuthState, event: AuthEvent)
    requires
        auth_state_valid(st),
    ensures
        auth_state_valid(auth_next(st, event).0),
        auth_next(st, event).1 matches AuthAction::TryAgentIdentity(i) ==> (match st {
            AuthState::AgentIdentity { next, count } => i == next + 1,
            _ => i == 0 && st == AuthState::Agent,
        }),
        st matches AuthState::AgentIdentity { next, count } ==> (auth_next(st, event).1
            == AuthAction::Fail(AuthFailure::NoAgentIdentity) <==> event != AuthEvent::Accepted && next
            + 1 == count),
{
}

/// Authentication ends: each step either ends it or moves to a state with a
/// smaller measure, once the agent's identities are known.
pub open spec fn auth_measure(st: AuthState) -> int {
    match st {
        AuthState::Done => 0,
        AuthState::Check => 1,
        AuthState::Password => 2,
        AuthState::KeyFile => 2,
        AuthState::AgentIdentity { next, count } => 1 + count - next,
        AuthState::Agent => -1,
    }
}

/// After the agent is reached, every step lowers the measure, which never
/// goes below zero: authentication ends after finitely many steps.
pub proof fn law_authentication_ends(st: AuthState, event: AuthEvent)
    requires
        auth_state_valid(st),
        st != AuthState::Agent,
        st != AuthState::Done,
    ensures
        0 <= auth_measure(auth_next(st, event).0) < auth_measure(st),
{
}

/// A stored password is decoded from standard base64 and then read as UTF-8:
/// text that is not base64 is refused as such, bytes that are not UTF-8 are
/// refused as such, and otherwise the password is the text those bytes encode.
pub proof fn law_password_decoding(encoded: Seq<char>)
    ensures
        base64_standard_decode(encoded) is None ==> decode_password_spec(encoded) == Err::<Seq<char>, PasswordError>(PasswordError::InvalidBase64),
        base64_standard_decode(encoded) matches Some(b) ==> (!vstd::utf8::valid_utf8(b)
            ==> decode_password_spec(encoded) == Err::<Seq<char>, PasswordError>(PasswordError::InvalidUtf8))
            && (vstd::utf8::valid_utf8(b) ==> decode_password_spec(encoded) == Ok::<Seq<char>, PasswordError>(
            vstd::utf8::decode_utf8(b),
        )),
{
}

/// An attempt that the server accepts, by password, key file or agent
/// identity, is never reported as a failure: the session is asked next.
pub proof fn law_accepted_attempt_asks_session(st: AuthState)
    requires
        st == AuthState::Password || st == AuthState::KeyFile || st is AgentIdentity,
    ensures
        auth_next(st, AuthEvent::Accepted) == (AuthState::Check, AuthAction::CheckSession),
{
}

/// The session's answer decides: yes is success, no is the failure
/// `NotAuthenticated`.
pub proof fn law_session_answer_decides(yes: bool)
    ensures
        auth_next(AuthState::Check, AuthEvent::Authenticated(yes)) == (if yes {
            (AuthState::Done, AuthAction::Succeed)
        } else {
            (AuthState::Done, AuthAction::Fail(AuthFailure::NotAuthenticated))
        }),
{
}

/// A refused password or key ends authentication with the failure of that
/// method.
pub proof fn law_refused_credential_fails()
    ensures
        auth_next(AuthState::Password, AuthEvent::Refused) == (
            AuthState::Done,
            AuthAction::Fail(AuthFailure::PasswordRefused),
        ),
        auth_next(AuthState::KeyFile, AuthEvent::Refused) == (
            AuthState::Done,
            AuthAction::Fail(AuthFailure::KeyRefused),
        ),
{
}

/// The first step tries the method given: the decoded password, the key file
/// at its path, or the agent; a stored password that cannot be decoded fails
/// before any attempt.
pub proof fn law_start_tries_the_method(method: AuthMethod, r: (AuthState, AuthAction))
    requires
        auth_start_post(method, r),
    ensures
        method matches AuthMethod::KeyFile(path) ==> r.0 == AuthState::KeyFile && (r.1 matches AuthAction::TryKeyFile(p) && p@ == path@),
        method is Agent ==> r.0 == AuthState::Agent && r.1 == AuthAction::OpenAgent,
        method matches AuthMethod::Password(enc) ==> (match decode_password_spec(enc@) {
            Ok(pw) => r.0 == AuthState::Password && (r.1 matches AuthAction::TryPassword(p) && p@ == pw),
            Err(e) => r.0 == AuthState::Done && r.1 == AuthAction::Fail(AuthFailure::StoredPassword(e)),
        }),
{
}

/// Reaching the agent: with identities the first one is tried; with none,
/// or when the agent cannot be opened, reached or listed, authentication
/// fails for that reason.
pub proof fn law_agent_outcomes(count: usize)
    ensures
        auth_next(AuthState::Agent, AuthEvent::AgentReady { count }) == (if count > 0 {
            (AuthState::AgentIdentity { next: 0, count }, AuthAction::TryAgentIdentity(0))
        } else {
            (AuthState::Done, AuthAction::Fail(AuthFailure::NoAgentIdentity))
        }),
        auth_next(AuthState::Agent, AuthEvent::AgentUnavailable) == (
            AuthState::Done,
            AuthAction::Fail(AuthFailure::AgentUnavailable),
        ),
        auth_next(AuthState::Agent, AuthEvent::AgentUnreachable) == (
            AuthState::Done,
            AuthAction::Fail(AuthFailure::AgentUnreachable),
        ),
        auth_next(AuthState::Agent, AuthEvent::AgentListFailed) == (
            AuthState::Done,
            AuthAction::Fail(AuthFailure::AgentListFailed),
        ),
{
}

} // verus!
