//! Login requests: reading the account and password a client sends, and the
//! decision on them given what the account store holds.
use vstd::prelude::*;

use crate::config::AccountRecord;
use crate::protocol::{length_field_at, utf8, LS_LOGIN_REQ};

verus! {

/// The authority level of a banned account.
pub const BANNED_AUTHORITY: u8 = 0xFF;

/// The outcome of a login attempt, as the client is told it.
#[derive(Clone, Copy, Debug, PartialEq, Eq, Structural)]
pub enum AuthResult {
    Success,
    NotFound,
    InvalidPassword,
    Banned,
    InGame,
    Error,
}

/// The byte that carries `result` in a login reply.
pub open spec fn auth_code(result: AuthResult) -> u8 {
    match result {
        AuthResult::Success => 0x01,
        AuthResult::NotFound => 0x02,
        AuthResult::InvalidPassword => 0x03,
        AuthResult::Banned => 0x04,
        AuthResult::InGame => 0x05,
        AuthResult::Error => 0xFF,
    }
}

impl AuthResult {
    /// The byte that carries this result in a login reply.
    pub fn code(&self) -> (c: u8)
        ensures
            c == auth_code(*self),
    {
        match self {
            AuthResult::Success => 0x01,
            AuthResult::NotFound => 0x02,
            AuthResult::InvalidPassword => 0x03,
            AuthResult::Banned => 0x04,
            AuthResult::InGame => 0x05,
            AuthResult::Error => 0xFF,
        }
    }
}

/// The account name and password of a login request, as bytes.
#[derive(Debug, PartialEq, Eq)]
pub struct LoginRequest {
    pub account: Vec<u8>,
    pub password: Vec<u8>,
}

/// The account and password in a login payload: the opcode, then the
/// account and the password, each as a 16-bit little-endian length and that
/// many bytes. Bytes after the password are ignored.
pub open spec fn parsed_login(payload: Seq<u8>) -> Option<(Seq<u8>, Seq<u8>)> {
    if payload.len() < 3 || payload[0] != LS_LOGIN_REQ {
        None
    } else {
        let a = length_field_at(payload, 1);
        if payload.len() < 5 + a {
            None
        } else {
            let p = length_field_at(payload, 3 + a);
            if payload.len() < 5 + a + p {
                None
            } else {
                Some((payload.subrange(3, 3 + a), payload.subrange(5 + a, 5 + a + p)))
            }
        }
    }
}

/// Reads the account and password out of a login payload.
pub fn parse_login_request(payload: &[u8]) -> (res: Option<LoginRequest>)
    ensures
        res is Some <==> parsed_login(payload@) is Some,
        res matches Some(r) ==> parsed_login(payload@) == Some((r.account@, r.password@)),
{
    if payload.len() < 3 || payload[0] != LS_LOGIN_REQ {
        return None;
    }
    let a: usize = payload[1] as usize + 0x100 * (payload[2] as usize);
    if payload.len() < 5 + a {
        return None;
    }
    let p: usize = payload[3 + a] as usize + 0x100 * (payload[4 + a] as usize);
    if payload.len() < 5 + a + p {
        return None;
    }
    let account: Vec<u8> = vstd::slice::slice_to_vec(vstd::slice::slice_subrange(payload, 3, 3 + a));
    let password: Vec<u8> = vstd::slice::slice_to_vec(
        vstd::slice::slice_subrange(payload, 5 + a, 5 + a + p),
    );
    Some(LoginRequest { account, password })
}

/// The decision on a login attempt with `password`, given the account's
/// record (none when the account does not exist) and whether the account is
/// already in the game.
pub open spec fn auth_outcome(
    password: Seq<u8>,
    account: Option<AccountRecord>,
    in_game: bool,
) -> AuthResult {
    match account {
        None => AuthResult::NotFound,
        Some(record) => if utf8(record.password@) != password {
            AuthResult::InvalidPassword
        } else if record.authority == BANNED_AUTHORITY {
            AuthResult::Banned
        } else if in_game {
            AuthResult::InGame
        } else {
            AuthResult::Success
        },
    }
}

/// Decides a login attempt from the request and what the account store
/// holds of the account.
pub fn authenticate(request: &LoginRequest, account: Option<&AccountRecord>, in_game: bool) -> (res:
    AuthResult)
    ensures
        res == auth_outcome(
            request.password@,
            match account {
                Some(r) => Some(*r),
                None => None,
            },
            in_game,
        ),
{
    match account {
        None => AuthResult::NotFound,
        Some(record) => {
            let stored: &[u8] = record.password.as_str().as_bytes();
            if !bytes_equal(stored, request.password.as_slice()) {
                AuthResult::InvalidPassword
            } else if record.authority == BANNED_AUTHORITY {
                AuthResult::Banned
            } else if in_game {
                AuthResult::InGame
            } else {
                AuthResult::Success
            }
        },
    }
}

/// Whether two byte strings are equal.
fn bytes_equal(a: &[u8], b: &[u8]) -> (res: bool)
    ensures
        res == (a@ == b@),
{
    if a.len() != b.len() {
        return false;
    }
    let mut i: usize = 0;
    while i < a.len()
        invariant
            i <= a@.len(),
            a@.len() == b@.len(),
            forall|j: int| 0 <= j < i ==> a@[j] == b@[j],
        decreases a@.len() - i,
    {
        if a[i] != b[i] {
            return false;
        }
        i = i + 1;
    }
    assert(a@ =~= b@);
    true
}

} // verus!
