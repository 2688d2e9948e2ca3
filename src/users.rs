//! Accounts with hashed passwords.
use vstd::prelude::*;

verus! {

/// An instant in UTC: seconds since the Unix epoch and the nanoseconds past that second.
#[derive(Clone, Copy, Debug, PartialEq, Eq, Structural)]
pub struct UtcTime {
    pub secs: i64,
    pub nanos: u32,
}

/// An account as stored.
pub struct User {
    pub id: i64,
    pub name: String,
    pub email: String,
    /// The bcrypt hash of the password.
    pub password: String,
    pub updated_at: UtcTime,
    pub created_at: UtcTime,
    pub locked_at: Option<UtcTime>,
}

/// An account as shown to others: without its password hash.
pub struct PublicUser {
    pub id: i64,
    pub name: String,
    pub email: String,
    pub updated_at: UtcTime,
    pub created_at: UtcTime,
}

/// Why hashing a password failed.
#[derive(Clone, Copy, Debug, PartialEq, Eq, Structural)]
pub enum PasswordError {
    /// bcrypt refused the cost or could not draw a salt.
    HashPassword,
}

/// The work factor passwords are hashed with.
pub const DEFAULT_COST: u32 = 12;

#[verifier::external_type_specification]
#[verifier::external_body]
pub struct ExBcryptError(bcrypt::BcryptError);

/// What `bcrypt::verify` says of a password against a stored hash: `None` where it fails
/// (a hash it cannot read).
pub uninterp spec fn bcrypt_verdict(password: Seq<char>, hash: Seq<char>) -> Option<bool>;

/// Relies on `bcrypt::verify`: its outcome depends on the password and the hash alone
/// (the salt and cost are read from the hash).
#[verifier::external_body]
fn bcrypt_verify(password: &str, hash: &str) -> (r: Option<bool>)
    ensures
        r == bcrypt_verdict(password@, hash@),
{
    bcrypt::verify(password, hash).ok()
}

/// The start of a bcrypt hash of version `2b` at `cost`: `$2b$`, the cost in two digits, `$`.
pub open spec fn bcrypt_prefix(cost: u32) -> Seq<char> {
    seq!['$', '2', 'b', '$', ((cost / 10) as u8 + 48) as char, ((cost % 10) as u8 + 48) as char, '$']
}

/// Relies on `bcrypt::hash`: it refuses a cost outside 4..=31; a hash it returns is 60
/// characters (`$2b$`, two cost digits, `$`, salt and digest) and verifies the password.
#[verifier::external_body]
fn bcrypt_hash(password: &str, cost: u32) -> (r: Result<String, bcrypt::BcryptError>)
    ensures
        !(4 <= cost <= 31) ==> r is Err,
        r matches Ok(h) ==> h@.len() == 60 && h@.take(7) == bcrypt_prefix(cost) && bcrypt_verdict(
            password@,
            h@,
        ) == Some(true),
{
    bcrypt::hash(password, cost)
}

/// Relies on `chrono::Utc::now()`: its `timestamp()` and `timestamp_subsec_nanos()`.
#[verifier::external_body]
fn utc_now() -> (r: UtcTime) {
    let now = chrono::Utc::now();
    UtcTime { secs: now.timestamp(), nanos: now.timestamp_subsec_nanos() }
}

/// Hashes a password with bcrypt at `cost`, under a fresh random salt.
pub fn hash_password_with_cost(password: &str, cost: u32) -> (r: Result<String, PasswordError>)
    ensures
        !(4 <= cost <= 31) ==> r == Err::<String, PasswordError>(PasswordError::HashPassword),
        r matches Ok(h) ==> h@.len() == 60 && h@.take(7) == bcrypt_prefix(cost) && bcrypt_verdict(
            password@,
            h@,
        ) == Some(true),
{
    match bcrypt_hash(password, cost) {
        Ok(h) => Ok(h),
        Err(_) => Err(PasswordError::HashPassword),
    }
}

/// Hashes a password with bcrypt at the default cost, under a fresh random salt.
pub fn hash_password(password: &str) -> (r: Result<String, PasswordError>)
    ensures
        r matches Ok(h) ==> h@.len() == 60 && h@.take(7) == bcrypt_prefix(DEFAULT_COST)
            && bcrypt_verdict(password@, h@) == Some(true),
{
    hash_password_with_cost(password, DEFAULT_COST)
}

impl User {
    /// A new account created now; the database assigns its id.
    pub fn new(name: String, email: String, password_hash: String) -> (r: User)
        ensures
            r.id == 0,
            r.name == name && r.email == email && r.password == password_hash,
            r.created_at == r.updated_at,
            r.locked_at is None,
    {
        let now = utc_now();
        User {
            id: 0,
            name,
            email,
            password: password_hash,
            updated_at: now,
            created_at: now,
            locked_at: None,
        }
    }

    /// Whether `password` matches the stored hash; an unreadable hash matches nothing.
    pub fn is_password_match(&self, password: &str) -> (r: bool)
        ensures
            r == (bcrypt_verdict(password@, self.password@) == Some(true)),
    {
        match bcrypt_verify(password, self.password.as_str()) {
            Some(b) => b,
            None => false,
        }
    }
}

impl From<User> for PublicUser {
    fn from(user: User) -> (r: PublicUser) {
        PublicUser {
            id: user.id,
            name: user.name,
            email: user.email,
            updated_at: user.updated_at,
            created_at: user.created_at,
        }
    }
}

impl vstd::std_specs::convert::FromSpecImpl<User> for PublicUser {
    open spec fn obeys_from_spec() -> bool {
        true
    }

    open spec fn from_spec(user: User) -> PublicUser {
        PublicUser {
            id: user.id,
            name: user.name,
            email: user.email,
            updated_at: user.updated_at,
            created_at: user.created_at,
        }
    }
}

} // verus!
