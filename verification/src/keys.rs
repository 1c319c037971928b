use vstd::prelude::*;
use vstd::string::*;
use crate::error::LedgerError;

verus! {

/// The number of characters of an encoded secret.
pub const SECRET_LEN: usize = 56;

#[verifier::external_type_specification]
#[verifier::external_body]
pub struct ExAnyhowError(anyhow::Error);

/// The public key, in its text encoding, of the keypair that
/// `stellar_sdk::Keypair::from_secret_key` builds from `secret`; `None` where
/// it builds none. Nothing else is assumed of it.
pub uninterp spec fn derived_public_id(secret: Seq<char>) -> Option<Seq<char>>;

/// The public identifier that a secret stands for. Only a text of
/// `SECRET_LEN` characters is ever handed to the keypair provider; any other
/// length derives nothing.
pub open spec fn public_id_of(secret: Seq<char>) -> Option<Seq<char>> {
    if secret.len() == SECRET_LEN {
        derived_public_id(secret)
    } else {
        None
    }
}

/// A freshly generated wallet: the public identifier that names the account,
/// and the secret that authorises payments from it.
#[derive(Debug)]
pub struct Wallet {
    pub public_key: String,
    pub secret_key: String,
}

/// Trusted: `stellar_sdk::Keypair::from_secret_key`, then
/// `stellar_sdk::Keypair::public_key` on the keypair it gave. The result is a
/// function of the secret alone, which `derived_public_id` names. Shorter
/// texts are kept away because the decoder indexes into what it decoded
/// before it looks at the length.
#[verifier::external_body]
fn keypair_public_key(secret: &str) -> (r: Result<String, anyhow::Error>)
    requires
        secret@.len() == SECRET_LEN,
    ensures
        match r {
            Ok(id) => derived_public_id(secret@) == Some(id@),
            Err(_) => derived_public_id(secret@) is None,
        },
{
    match stellar_sdk::Keypair::from_secret_key(secret) {
        Ok(keypair) => Ok(keypair.public_key()),
        Err(e) => Err(e),
    }
}

/// Trusted: `stellar_sdk::Keypair::random`, then
/// `stellar_sdk::Keypair::secret_key` on the keypair it gave. The secret is
/// drawn at random, so nothing is claimed of it.
#[verifier::external_body]
fn random_secret() -> (r: Result<String, anyhow::Error>) {
    match stellar_sdk::Keypair::random() {
        Ok(mut keypair) => keypair.secret_key(),
        Err(e) => Err(e),
    }
}

/// Derives the public identifier of a secret, or `InvalidKey` where the
/// secret stands for none.
pub fn derive_public_id(secret: &str) -> (r: Result<String, LedgerError>)
    ensures
        match r {
            Ok(id) => public_id_of(secret@) == Some(id@),
            Err(e) => e == LedgerError::InvalidKey && public_id_of(secret@) is None,
        },
{
    if secret.unicode_len() != SECRET_LEN {
        return Err(LedgerError::InvalidKey);
    }
    match keypair_public_key(secret) {
        Ok(id) => Ok(id),
        Err(_) => Err(LedgerError::InvalidKey),
    }
}

/// Makes a wallet of a secret that the keypair provider drew: the public
/// identifier is derived from it as a payment will derive it later. A secret
/// that derives nothing is refused with `KeyProvider`.
pub fn wallet_of_secret(secret: String) -> (r: Result<Wallet, LedgerError>)
    ensures
        match r {
            Ok(wallet) => wallet.secret_key@ == secret@ && public_id_of(secret@) == Some(
                wallet.public_key@,
            ),
            Err(e) => e == LedgerError::KeyProvider && public_id_of(secret@) is None,
        },
{
    match derive_public_id(secret.as_str()) {
        Ok(public_key) => Ok(Wallet { public_key, secret_key: secret }),
        Err(_) => Err(LedgerError::KeyProvider),
    }
}

/// Draws a fresh keypair. Whatever was drawn, the wallet that comes back
/// holds a secret that derives its public identifier.
pub fn generate_wallet() -> (r: Result<Wallet, LedgerError>)
    ensures
        match r {
            Ok(wallet) => public_id_of(wallet.secret_key@) == Some(wallet.public_key@),
            Err(e) => e == LedgerError::KeyProvider,
        },
{
    match random_secret() {
        Ok(secret) => wallet_of_secret(secret),
        Err(_) => Err(LedgerError::KeyProvider),
    }
}

} // verus!
