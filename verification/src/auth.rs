//! The request-layer boundary of the core: authenticated identities, login
//! resolution, token claims, and the `Authorization` header shape.
//!
//! Token signing and verification themselves live outside the core; the
//! core only decides who may do what, from plain values.

use vstd::prelude::*;

use crate::errors::ApiError;
use crate::ledger::{has_user, lookup_user, Ledger};
use crate::model::User;
use crate::passwd::{argon_faults, argon_verifies, verify};

verus! {

/// The identity the request layer has already proven; every protected
/// operation trusts it and checks it against the resource it touches.
pub struct AuthenticatedUser {
    pub username: String,
}

/// What an issued token certifies: the subject it names and the expiry
/// timestamp, in seconds.
pub struct Claims {
    pub sub: String,
    pub exp: usize,
}

/// A login request: the claimed identity and the raw password.
pub struct LoginRequest {
    pub username: String,
    pub password: String,
}

/// The claims of a token issued at `now` for `sub`, valid for
/// `expiry_seconds` seconds.
pub fn claims_for(sub: String, now: u64, expiry_seconds: u64) -> (c: Claims)
    requires
        now + expiry_seconds <= usize::MAX,
    ensures
        c.sub@ == sub@,
        c.exp == now + expiry_seconds,
{
    Claims { sub, exp: (now + expiry_seconds) as usize }
}

/// The token carried by an `Authorization` header value of the shape
/// `Bearer <token>`, and nothing for a value of any other shape.
pub fn parse_bearer(header: &str) -> (r: Option<&str>)
    ensures
        match r {
            Some(tok) => {
                &&& header@.len() >= 7
                &&& header@.subrange(0, 7) == "Bearer "@
                &&& tok@ == header@.skip(7)
            },
            None => !(header@.len() >= 7 && header@.subrange(0, 7) == "Bearer "@),
        },
{
    proof {
        reveal_strlit("Bearer ");
    }
    let n = header.unicode_len();
    if n < 7 {
        return None;
    }
    if header.get_char(0) == 'B' && header.get_char(1) == 'e' && header.get_char(2) == 'a'
        && header.get_char(3) == 'r' && header.get_char(4) == 'e' && header.get_char(5) == 'r'
        && header.get_char(6) == ' ' {
        let tok = header.substring_char(7, n);
        proof {
            assert(header@.subrange(0, 7) =~= "Bearer "@);
            assert(tok@ =~= header@.skip(7));
        }
        Some(tok)
    } else {
        proof {
            reveal_strlit("Bearer ");
            if header@.subrange(0, 7) == "Bearer "@ {
                assert(forall|k: int|
                    0 <= k < 7 ==> #[trigger] header@[k] == header@.subrange(0, 7)[k]);
                assert(header@[0] == 'B' && header@[1] == 'e' && header@[2] == 'a' && header@[3]
                    == 'r' && header@[4] == 'e' && header@[5] == 'r' && header@[6] == ' ');
            }
        }
        None
    }
}

/// Whether the authenticated caller may act on `username`'s resources:
/// exactly the owner may, anyone else is turned away.
pub fn authorize(caller: &AuthenticatedUser, username: &str) -> (r: Result<(), ApiError>)
    ensures
        r matches Ok(()) <==> caller.username@ == username@,
        r matches Err(e) ==> e == ApiError::Unauthorized,
{
    let key: String = username.to_owned();
    if caller.username == key {
        Ok(())
    } else {
        Err(ApiError::Unauthorized)
    }
}

/// What the login path answers for each possible verifier outcome, once the
/// account is known to exist: the account on a match, `InvalidCredentials`
/// on a mismatch, and the verifier's own failure as a server fault.
pub fn finish_login(user: User, verified: Result<bool, ApiError>) -> (r: Result<User, ApiError>)
    ensures
        match verified {
            Ok(true) => r == Ok::<User, ApiError>(user),
            Ok(false) => r == Err::<User, ApiError>(ApiError::InvalidCredentials),
            Err(_) => r == Err::<User, ApiError>(ApiError::InternalServerError),
        },
{
    match verified {
        Ok(true) => Ok(user),
        Ok(false) => Err(ApiError::InvalidCredentials),
        Err(_) => Err(ApiError::InternalServerError),
    }
}

/// Resolves a login request against the store, and pins every outcome:
/// `UserNotFound` exactly when no account carries the claimed identity;
/// otherwise, the verifier's verdict on the password and the stored hash
/// decides — the stored account on acceptance, `InvalidCredentials` on a
/// mismatch, and `InternalServerError` exactly when the verifier faults on
/// the pair (which it never does on a hash this library stored).
pub fn authenticate(ledger: &Ledger, req: &LoginRequest) -> (r: Result<User, ApiError>)
    ensures
        ({
            let accs = ledger@.accounts;
            let known = has_user(accs, req.username@);
            let stored = lookup_user(accs, req.username@);
            &&& (r == Err::<User, ApiError>(ApiError::UserNotFound)) <==> !known
            &&& known && argon_faults(req.password@, stored.password_hash) ==> r == Err::<
                User,
                ApiError,
            >(ApiError::InternalServerError)
            &&& known && !argon_faults(req.password@, stored.password_hash) && argon_verifies(
                req.password@,
                stored.password_hash,
            ) ==> (r matches Ok(u) && u@ == stored)
            &&& known && !argon_faults(req.password@, stored.password_hash) && !argon_verifies(
                req.password@,
                stored.password_hash,
            ) ==> r == Err::<User, ApiError>(ApiError::InvalidCredentials)
        }),
{
    let user = match ledger.login(req.username.as_str()) {
        Some(u) => u,
        None => {
            return Err(ApiError::UserNotFound);
        },
    };
    let verified = verify(req.password.as_str(), user.password_hash.as_str());
    finish_login(user, verified)
}

} // verus!
