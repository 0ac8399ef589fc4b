use mmb_engine::rest_client::to_http_string;
use mmb_engine::settings::{
    extract_credentials, merge_credentials, ExchangeCredentialFields, SettingsError,
};
use mmb_engine::solana::{FromU64Array, NetworkType, PublicKey, SolanaHosts};

fn fields(id: Option<&str>, api: Option<&str>, secret: Option<&str>) -> ExchangeCredentialFields {
    ExchangeCredentialFields {
        exchange_account_id: id.map(|s| s.to_string()),
        api_key: api.map(|s| s.to_string()),
        secret_key: secret.map(|s| s.to_string()),
    }
}

#[test]
fn save_then_load_restores_credentials() {
    let entries = vec![
        fields(Some("Binance_0"), Some("key0"), Some("secret0")),
        fields(Some("Bitmex_1"), Some("key1"), Some("secret1")),
    ];
    let creds = extract_credentials(&entries).expect("complete entries");
    assert_eq!(creds.len(), 2);
    assert_eq!(creds[1].exchange_account_id, "Bitmex_1");
    let ids = vec![Some("Binance_0".to_string()), Some("Bitmex_1".to_string())];
    let keys = merge_credentials(&ids, &creds).expect("credentials for every account");
    assert_eq!(
        keys,
        vec![
            ("key0".to_string(), "secret0".to_string()),
            ("key1".to_string(), "secret1".to_string())
        ]
    );
}

#[test]
fn incomplete_entry_is_reported() {
    let entries = vec![
        fields(Some("Binance_0"), Some("key0"), Some("secret0")),
        fields(Some("Bitmex_1"), None, Some("secret1")),
    ];
    assert!(matches!(
        extract_credentials(&entries),
        Err(SettingsError::IncompleteCredentials { index: 1 })
    ));
}

#[test]
fn missing_account_or_credentials_is_reported() {
    let entries = vec![fields(Some("Binance_0"), Some("key0"), Some("secret0"))];
    let creds = extract_credentials(&entries).expect("complete entries");
    assert_eq!(
        merge_credentials(&vec![None], &creds),
        Err(SettingsError::MissingExchangeAccountId { index: 0 })
    );
    assert_eq!(
        merge_credentials(&vec![Some("Binance_0".to_string()), Some("Kraken_0".to_string())], &creds),
        Err(SettingsError::MissingCredentials { index: 1 })
    );
}

#[test]
fn http_string_joins_pairs() {
    let params = vec![
        ("symbol".to_string(), "BTCUSDT".to_string()),
        ("timestamp".to_string(), "42".to_string()),
    ];
    assert_eq!(to_http_string(&params), "symbol=BTCUSDT&timestamp=42");
    assert_eq!(to_http_string(&vec![]), "");
    assert_eq!(to_http_string(&vec![("a".to_string(), "".to_string())]), "a=");
}

#[test]
fn network_endpoints() {
    let mainnet = NetworkType::Mainnet;
    assert_eq!(mainnet.url(), "https://api.mainnet-beta.solana.com");
    assert_eq!(mainnet.ws(), "ws://api.mainnet-beta.solana.com/");
    assert!(mainnet.market_list_url().ends_with("markets.json"));
    assert!(mainnet.market_list_json().is_none());
    let custom = NetworkType::Custom(SolanaHosts::new(
        "http://localhost:8899".to_string(),
        "ws://localhost:8900".to_string(),
        "http://localhost/markets".to_string(),
        Some("[]".to_string()),
    ));
    assert_eq!(custom.url(), "http://localhost:8899");
    assert_eq!(custom.ws(), "ws://localhost:8900");
    assert_eq!(custom.market_list_url(), "http://localhost/markets");
    assert_eq!(custom.market_list_json(), Some(&"[]".to_string()));
}

#[test]
fn public_key_from_words_is_little_endian() {
    let key = PublicKey::from_u64_array([0x0807060504030201, 0, 0, 0xff00000000000000]);
    assert_eq!(&key.bytes[0..8], &[1, 2, 3, 4, 5, 6, 7, 8]);
    assert_eq!(key.bytes[8], 0);
    assert_eq!(key.bytes[31], 0xff);
}
