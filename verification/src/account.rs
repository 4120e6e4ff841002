//! Account creation requests. Deriving, importing or generating the secret
//! key is the cryptography collaborator's work; what is decided here — and
//! verified — is which of the three it is asked to do, with mnemonic input
//! taking precedence over a raw key, and a fresh key generated when neither
//! is supplied.

use vstd::prelude::*;

verus! {

/// An account-creation command as the caller states it.
#[derive(Debug)]
pub enum Account {
    New { mnemonic: Option<String>, language: String, key: Option<String> },
}

/// What the cryptography collaborator is asked to do for the account.
#[derive(Debug)]
pub enum KeyRequest {
    /// Derive the key from mnemonic words, read in the given language code.
    FromMnemonic { mnemonic: String, language: String },
    /// Import the key from its hex form.
    FromHex { key: String },
    /// Generate a fresh key.
    Generate,
}

/// Decides what an account command asks for: a supplied mnemonic wins over
/// a supplied raw key, and with neither a fresh key is generated.
pub fn key_request(account: Account) -> (r: KeyRequest)
    ensures
        account matches Account::New { mnemonic: Some(m), language: l, key: _ } ==> r
            == (KeyRequest::FromMnemonic { mnemonic: m, language: l }),
        account matches Account::New { mnemonic: None, language: _, key: Some(k) } ==> r
            == (KeyRequest::FromHex { key: k }),
        account matches Account::New { mnemonic: None, language: _, key: None } ==> r
            == KeyRequest::Generate,
{
    match account {
        Account::New { mnemonic: Some(m), language, key: _ } => KeyRequest::FromMnemonic {
            mnemonic: m,
            language,
        },
        Account::New { mnemonic: None, language: _, key: Some(k) } => KeyRequest::FromHex {
            key: k,
        },
        Account::New { mnemonic: None, language: _, key: None } => KeyRequest::Generate,
    }
}

} // verus!
