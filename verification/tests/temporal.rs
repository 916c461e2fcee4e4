use inference_gateway::temporal::{
    is_enabled, target_text, temporal_target_url, tls_settings, TemporalConfig, TlsChoice,
};

fn some(text: &str) -> Option<String> {
    Some(text.to_string())
}

#[test]
fn addresses_get_the_scheme_that_is_called_for() {
    assert_eq!(target_text("127.0.0.1:7233", false), "http://127.0.0.1:7233");
    assert_eq!(target_text("127.0.0.1:7233", true), "https://127.0.0.1:7233");
    assert_eq!(target_text("http://host", true), "http://host");
    assert_eq!(
        temporal_target_url("HOST.example:7233", true),
        Ok("https://host.example:7233/".to_string())
    );
    assert_eq!(temporal_target_url("", false), Err("empty host".to_string()));
}

#[test]
fn partial_client_identities_are_ignored() {
    assert!(tls_settings(None, some(""), None, some("")).is_none());
    let tls = tls_settings(some("ca"), some("cert"), None, None).unwrap();
    assert_eq!(tls.server_root_ca_cert, Some(b"ca".to_vec()));
    assert!(tls.client.is_none());
    let tls = tls_settings(None, some("cert"), some("key"), some("domain")).unwrap();
    let client = tls.client.unwrap();
    assert_eq!(client.client_cert, b"cert");
    assert_eq!(client.client_private_key, b"key");
    assert_eq!(tls.domain, some("domain"));
    assert!(tls_settings(None, None, some("key"), None).unwrap().client.is_none());
}

#[test]
fn connections_with_keys_are_encrypted() {
    let plain = TemporalConfig::from_settings(None, None, None, some(""), None);
    assert_eq!(plain.address, "127.0.0.1:7233");
    assert_eq!(plain.namespace, "default");
    assert_eq!(plain.task_queue, "inference-gpu");
    assert_eq!(plain.api_key, None);
    assert_eq!(plain.target(), Ok("http://127.0.0.1:7233/".to_string()));
    assert_eq!(plain.tls_choice(), TlsChoice::Off);
    let keyed = TemporalConfig::from_settings(some("h:1"), some("n"), some("q"), some("k"), None);
    assert_eq!(keyed.target(), Ok("https://h:1/".to_string()));
    assert_eq!(keyed.tls_choice(), TlsChoice::Default);
    let tls = tls_settings(None, None, None, some("d"));
    let given = TemporalConfig::from_settings(None, None, None, None, tls);
    assert_eq!(given.target(), Ok("https://127.0.0.1:7233/".to_string()));
    assert!(matches!(given.tls_choice(), TlsChoice::Given(_)));
    assert!(is_enabled(some("true")) && is_enabled(some("1")));
    assert!(!is_enabled(some("yes")) && !is_enabled(None));
}
