use vocawin::gateway::{
    container_running, decode_base64, decode_pairing_payload_url, detect_docker, generate_token_hex,
    env_file_body, lan_url_candidate, usable_token, pairing_live_check, start_outcome, start_pull_subcommand,
    start_up_subcommand, stop_subcommand, pairing_endpoint, pairing_inputs, is_loopback_public_url, map_phase, parse_env_value, phase_label, token_hex_of, urlencoding_minimal,
    validate_public_url, CommandOutcome, GatewayPhase, DOCKER_NOT_FOUND,
};

#[test]
fn rejects_loopback_hosts() {
    assert!(is_loopback_public_url("http://127.0.0.1:8765"));
    assert!(is_loopback_public_url("http://localhost:8765"));
    assert!(is_loopback_public_url("https://127.0.0.1/"));
    assert!(is_loopback_public_url("http://127.1.2.3:8765"));
    assert!(is_loopback_public_url("http://[::1]:8765"));
    assert!(!is_loopback_public_url("http://192.168.1.20:8765"));
    assert!(!is_loopback_public_url("http://100.64.1.2:8765"));
    assert!(!is_loopback_public_url(""));
}

#[test]
fn validate_public_url_requires_scheme_and_non_loopback() {
    assert!(validate_public_url("192.168.1.20:8765").is_err());
    assert!(validate_public_url("http://127.0.0.1:8765").is_err());
    assert!(validate_public_url("http://192.168.1.20:8765\nVOCAGATEWAY_TOKEN=ab").is_err());
    assert!(validate_public_url("http://192.168.1.20:8765#frag").is_err());
    assert!(validate_public_url("http://192.168.1.20@127.0.0.1:8765").is_err());
    assert_eq!(
        validate_public_url("http://192.168.1.20:8765/").unwrap(),
        "http://192.168.1.20:8765"
    );
}

#[test]
fn token_is_at_least_32_hex() {
    let token = generate_token_hex().expect("entropy");
    assert!(token.len() >= 32);
    assert!(token.chars().all(|c| c.is_ascii_hexdigit()));
}

#[test]
fn phase_mapping_covers_contract_states() {
    assert_eq!(
        map_phase(false, false, false, false),
        GatewayPhase::DockerMissing
    );
    assert_eq!(map_phase(true, false, false, false), GatewayPhase::Stopped);
    assert_eq!(
        map_phase(true, true, false, false),
        GatewayPhase::Starting
    );
    assert_eq!(
        map_phase(true, true, true, false),
        GatewayPhase::LiveNotReady
    );
    assert_eq!(map_phase(true, true, true, true), GatewayPhase::Ready);
    assert_eq!(map_phase(true, false, true, true), GatewayPhase::Ready);
}

#[test]
fn parse_env_reads_token() {
    let sample = "VOCAGATEWAY_PUBLISH_PORT=8765\nVOCAGATEWAY_TOKEN=abcd\n";
    assert_eq!(
        parse_env_value(sample, "VOCAGATEWAY_TOKEN").as_deref(),
        Some("abcd")
    );
}

#[test]
fn tokens_are_lowercase_hex_of_the_bytes() {
    assert_eq!(token_hex_of(&[0x00, 0xab, 0x7f, 0x10]), "00ab7f10");
    let a = generate_token_hex().unwrap();
    let b = generate_token_hex().unwrap();
    assert_eq!(a.len(), 32);
    assert_ne!(a, b);
}

#[test]
fn a_validated_url_is_never_loopback() {
    for raw in ["http://10.0.0.2:8765/", "https://phone.example.net", " http://192.168.0.9 "] {
        let url = validate_public_url(raw).unwrap();
        assert!(!is_loopback_public_url(&url));
    }
    assert!(validate_public_url("   ").is_err());
    assert!(validate_public_url("http://localhost/").is_err());
}

#[test]
fn phase_labels_read_plainly() {
    assert_eq!(phase_label(GatewayPhase::LiveNotReady), "Live (not ready)");
    assert_eq!(phase_label(GatewayPhase::DockerMissing), "Docker missing");
}

#[test]
fn docker_detection_reports_each_failure() {
    let (ok, detail) = detect_docker(&CommandOutcome::NotFound, &CommandOutcome::NotFound);
    assert!(!ok);
    assert_eq!(detail, DOCKER_NOT_FOUND);
    let version = CommandOutcome::Succeeded {
        stdout: "Client: 1\nServer: Docker Engine 27\n".to_string(),
    };
    let compose = CommandOutcome::Succeeded {
        stdout: " Docker Compose version v2 \n".to_string(),
    };
    let (ok, detail) = detect_docker(&version, &compose);
    assert!(ok);
    assert_eq!(detail, "Server: Docker Engine 27; Docker Compose version v2");
    let failed = CommandOutcome::Failed {
        stdout: String::new(),
        stderr: "  pipe error ".to_string(),
    };
    let (ok, detail) = detect_docker(&failed, &compose);
    assert!(!ok);
    assert_eq!(detail, "Docker engine not ready: pipe error");
}

#[test]
fn a_running_gateway_needs_its_files_and_a_ps_line() {
    let ps = CommandOutcome::Succeeded {
        stdout: "abc123\n".to_string(),
    };
    assert!(container_running(true, &ps));
    assert!(!container_running(false, &ps));
    let empty = CommandOutcome::Succeeded {
        stdout: "  \n".to_string(),
    };
    assert!(!container_running(true, &empty));
}

#[test]
fn base64_and_pairing_payloads_decode() {
    // A tail shorter than a group of four is ignored.
    assert_eq!(decode_base64("aGk").unwrap(), Vec::<u8>::new());
    assert_eq!(decode_base64("aGk=").unwrap(), b"hi".to_vec());
    assert!(decode_base64("ab$d").is_err());
    // {"v":1,"url":"http://10.0.0.2:8765"}
    let payload = "eyJ2IjoxLCJ1cmwiOiJodHRwOi8vMTAuMC4wLjI6ODc2NSJ9";
    assert_eq!(
        decode_pairing_payload_url(payload).unwrap(),
        "http://10.0.0.2:8765"
    );
    assert!(decode_pairing_payload_url("!!!!").is_err());
}

#[test]
fn query_values_are_percent_encoded() {
    assert_eq!(urlencoding_minimal("http://a b/~x"), "http%3A%2F%2Fa%20b%2F~x");
    assert_eq!(urlencoding_minimal("é"), "%C3%A9");
}

#[test]
fn compose_runs_on_the_gateway_project() {
    let args = vocawin::gateway::compose_args("/g/compose.yaml", "/g/.env", &["up", "-d"]);
    assert_eq!(
        args,
        vec!["compose", "-p", "vocagateway", "-f", "/g/compose.yaml", "--env-file", "/g/.env", "up", "-d"]
    );
}

#[test]
fn written_token_reads_back_from_env_body() {
    let token = "0123456789abcdef0123456789abcdef";
    let body = env_file_body(token, "  https://voca.example.com  ");
    assert!(body.starts_with("VOCAGATEWAY_TOKEN=0123456789abcdef0123456789abcdef\n"));
    assert!(body.contains("VOCAGATEWAY_PUBLIC_URL=https://voca.example.com\n"));
    assert_eq!(parse_env_value(&body, "VOCAGATEWAY_TOKEN").as_deref(), Some(token));
    let bare = env_file_body(token, "   ");
    assert!(!bare.contains("VOCAGATEWAY_PUBLIC_URL"));
    assert_eq!(parse_env_value(&bare, "VOCAGATEWAY_TOKEN").as_deref(), Some(token));
}

#[test]
fn pairing_checks_the_url_then_the_token() {
    assert!(pairing_inputs("http://127.0.0.1:8765", Some("t".into())).is_err());
    assert_eq!(
        pairing_inputs("https://voca.example.com/", None).unwrap_err(),
        "Gateway token is missing. Start Gateway once to create the .env file."
    );
    assert_eq!(
        pairing_inputs(" https://voca.example.com/ ", Some("abc".into())).unwrap(),
        ("https://voca.example.com".to_string(), "abc".to_string())
    );
    assert_eq!(
        pairing_endpoint("https://voca.example.com"),
        "http://127.0.0.1:8765/v1/admin/pairing?url=https%3A%2F%2Fvoca.example.com"
    );
}

#[test]
fn the_lan_suggestion_is_never_loopback() {
    assert_eq!(
        lan_url_candidate("192.168.1.20", false).as_deref(),
        Some("http://192.168.1.20:8765")
    );
    assert_eq!(lan_url_candidate("192.168.1.20", true), None);
    assert_eq!(lan_url_candidate("127.0.0.1", false), None);
}

#[test]
fn start_pulls_then_brings_up_and_stop_keeps_volumes() {
    assert_eq!(start_pull_subcommand(), vec!["pull", "gateway"]);
    assert_eq!(start_up_subcommand(), vec!["up", "-d", "gateway"]);
    assert_eq!(stop_subcommand(), vec!["down"]);
    assert!(!stop_subcommand().iter().any(|a| *a == "--volumes" || *a == "-v"));
    assert_eq!(start_outcome(&CommandOutcome::Succeeded { stdout: "done".into() }), Ok(()));
    assert_eq!(
        start_outcome(&CommandOutcome::Failed { stdout: "".into(), stderr: " no image \n".into() }),
        Err("docker compose failed: no image".to_string())
    );
    assert_eq!(
        start_outcome(&CommandOutcome::NotFound),
        Err("Could not run docker compose.".to_string())
    );
}

#[test]
fn pairing_waits_for_a_live_gateway() {
    assert!(pairing_live_check(true).is_ok());
    assert_eq!(
        pairing_live_check(false).unwrap_err(),
        "Gateway is not live yet. Wait until status is Live or Ready."
    );
}

#[test]
fn base64_decodes_standard_encodings() {
    assert_eq!(decode_base64("aGk=").unwrap(), b"hi".to_vec());
    assert_eq!(decode_base64("").unwrap(), Vec::<u8>::new());
    assert_eq!(decode_base64("Zm9vYmFy").unwrap(), b"foobar".to_vec());
    assert_eq!(decode_base64("Zm9vYg==").unwrap(), b"foob".to_vec());
    assert_eq!(decode_base64("Zm9vYmE=").unwrap(), b"fooba".to_vec());
    assert_eq!(decode_base64("/+8A").unwrap(), vec![0xFF, 0xEF, 0x00]);
}

#[test]
fn a_kept_token_is_measured_in_bytes() {
    let wide = "é".repeat(16);
    assert_eq!(wide.chars().count(), 16);
    assert_eq!(usable_token(Some(wide.clone())), Some(wide));
    let short = format!("{}a", "é".repeat(15));
    assert_eq!(usable_token(Some(short)), None);
    assert_eq!(usable_token(Some("0123456789abcdef0123456789abcdef".into())).as_deref(), Some("0123456789abcdef0123456789abcdef"));
    assert_eq!(usable_token(None), None);
}
