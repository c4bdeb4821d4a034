//! Outside types that the library carries, and the outside calls it makes.

use vstd::prelude::*;
use sha2::Digest;

verus! {

/// `std::io::Error`, carried opaque inside the library's error values.
#[verifier::external_type_specification]
#[verifier::external_body]
pub struct ExIoError(std::io::Error);

/// `uuid::Error`, the reason a text is not a UUID; carried opaque.
#[verifier::external_type_specification]
#[verifier::external_body]
pub struct ExUuidError(uuid::Error);

/// `rusqlite::Error`, a failure of the database engine; carried opaque.
#[verifier::external_type_specification]
#[verifier::external_body]
pub struct ExSqlError(rusqlite::Error);

/// The 128-bit value of the UUID that a text denotes, if it denotes one.
pub uninterp spec fn uuid_from_text(s: Seq<char>) -> Option<u128>;

/// Relies on `uuid::Uuid::parse_str`, then `Uuid::as_u128`: the text is
/// accepted exactly when it denotes a UUID, whose value is returned.
#[verifier::external_body]
pub(crate) fn parse_uuid(s: &str) -> (r: Result<u128, uuid::Error>)
    ensures
        match r {
            Ok(u) => uuid_from_text(s@) == Some(u),
            Err(_) => uuid_from_text(s@) is None,
        },
{
    uuid::Uuid::parse_str(s).map(|u| u.as_u128())
}

/// Relies on `uuid::Uuid::from_u128` and `Display` for `Uuid`: the
/// hyphenated lowercase form, 36 characters long.
#[verifier::external_body]
pub(crate) fn uuid_text(value: u128) -> (r: String)
    ensures
        r@.len() == 36,
{
    uuid::Uuid::from_u128(value).to_string()
}

/// The SHA-256 digest of `bytes`: it depends on the bytes alone.
pub uninterp spec fn sha256_of(bytes: Seq<u8>) -> Seq<u8>;

/// The hasher of the `sha2` crate, out of Verus's sight.
#[verifier::external_body]
pub(crate) struct Sha256State {
    inner: sha2::Sha256,
}

/// A running SHA-256 computation, with the bytes fed so far.
pub(crate) struct Sha256Stream {
    state: Sha256State,
    fed: Ghost<Seq<u8>>,
}

impl Sha256Stream {
    /// The bytes fed so far, in order.
    pub(crate) closed spec fn fed(&self) -> Seq<u8> {
        self.fed@
    }

    /// Relies on `Digest::new` for `sha2::Sha256`: a hasher that has taken no
    /// bytes yet.
    #[verifier::external_body]
    pub(crate) fn start() -> (r: Sha256Stream)
        ensures
            r.fed() == Seq::<u8>::empty(),
    {
        Sha256Stream { state: Sha256State { inner: sha2::Sha256::new() }, fed: Ghost(Seq::empty()) }
    }

    /// Relies on `Digest::update` for `sha2::Sha256`: `chunk` follows what
    /// was fed before.
    #[verifier::external_body]
    pub(crate) fn feed(&mut self, chunk: &[u8])
        ensures
            final(self).fed() == old(self).fed() + chunk@,
    {
        self.state.inner.update(chunk);
        self.fed = Ghost(self.fed@ + chunk@);
    }

    /// Relies on `Digest::finalize` for `sha2::Sha256`: the SHA-256 digest of
    /// all that was fed, which is 32 bytes long.
    #[verifier::external_body]
    pub(crate) fn digest(self) -> (r: Vec<u8>)
        ensures
            r@ == sha256_of(self.fed()),
            r@.len() == 32,
    {
        self.state.inner.finalize().to_vec()
    }
}

} // verus!
