use oreos::account::{key_request, Account, KeyRequest};

#[test]
fn mnemonic_wins_over_raw_key() {
    let r = key_request(Account::New {
        mnemonic: Some("abandon ability able".to_string()),
        language: "en".to_string(),
        key: Some("deadbeef".to_string()),
    });
    assert!(matches!(
        r,
        KeyRequest::FromMnemonic { mnemonic, language }
            if mnemonic == "abandon ability able" && language == "en"
    ));
}

#[test]
fn raw_key_is_imported_when_no_mnemonic() {
    let r = key_request(Account::New {
        mnemonic: None,
        language: "en".to_string(),
        key: Some("deadbeef".to_string()),
    });
    assert!(matches!(r, KeyRequest::FromHex { key } if key == "deadbeef"));
}

#[test]
fn nothing_supplied_generates_a_fresh_key() {
    let r = key_request(Account::New {
        mnemonic: None,
        language: "en".to_string(),
        key: None,
    });
    assert!(matches!(r, KeyRequest::Generate));
}
