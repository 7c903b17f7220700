use nocturne::gates::{Attestation, Hiranyagarbha, Phase};
use nocturne::governance::{CoherenceMetrics, Mutex, ProtonShadow, Synod, VetoControl};
use nocturne::handshake::{hash_constitution, sign_with_shadow_proton, InterstellarMessage,
    Invitation, SASC_CONSTITUTION};
use nocturne::space_proof_constitution::{str_contains, Capability, NASABuildChecker,
    RustStaticAnalyzer, SpaceProofConstitution};
use nocturne::ssh_oauth_port_forward::{ConsciousnessChannel, OAuthProvider, OAuthScope,
    OAuthToken, QuartoCaminhoLink, SSHCertificate, SSHError, SSHOAuthConstitution,
    SSHSession, SecurityContext, TunnelProjection, TOKEN_BUFFER_SIZE};

#[test]
fn capability_bits_and_bounds() {
    let cap = Capability::new(1_000, 64);
    assert!(cap.can_read());
    assert!(cap.can_write());
    assert!(cap.check_bounds(0, 64));
    assert!(cap.check_bounds(60, 4));
    assert!(!cap.check_bounds(60, 5));
}

#[test]
fn substring_search_matches_exactly() {
    assert!(str_contains("let x = assert!(y);", "assert!"));
    assert!(!str_contains("let x = y;", "assert!"));
    assert!(str_contains("anything", ""));
    assert!(!str_contains("ab", "abc"));
    assert!(str_contains("abc", "abc"));
}

#[test]
fn constitution_rolls_up_function_analyses() {
    let mut constitution = SpaceProofConstitution::new();
    assert!(constitution.rule_ok(1));
    constitution
        .register_function_analysis("short_fn", 10, 3, false, 1, false, false, false)
        .unwrap();
    assert!(constitution.rule_ok(1) && constitution.rule_ok(4));
    constitution
        .register_function_analysis("long_fn", 120, 0, true, 5, true, true, true)
        .unwrap();
    assert!(!constitution.rule_ok(1));
    assert!(!constitution.rule_ok(2));
    assert!(!constitution.rule_ok(3));
    assert!(!constitution.rule_ok(4));
    assert!(!constitution.rule_ok(5));
    assert!(!constitution.rule_ok(11));
    assert!(!constitution.rule_ok(12));
    assert_eq!(constitution.total_functions, 2);
    assert_eq!(constitution.max_loop_depth, 5);
}

#[test]
fn compliance_verdicts_aggregate_the_rules() {
    let mut constitution = SpaceProofConstitution::new();
    let verdict = constitution.power_of_10_compliant();
    assert!(verdict.nasa_compliant);
    assert!(verdict.rust_extensions_compliant);
    constitution.register_rule_violation(2, "loops");
    let core_broken = constitution.power_of_10_compliant();
    assert!(!core_broken.nasa_compliant);
    assert!(core_broken.rust_extensions_compliant);
    constitution.register_rule_violation(14, "panics");
    let both_broken = constitution.power_of_10_compliant();
    assert!(!both_broken.nasa_compliant);
    assert!(!both_broken.rust_extensions_compliant);
}

#[test]
fn violations_are_collected_in_rule_order() {
    let mut constitution = SpaceProofConstitution::new();
    constitution.register_rule_violation(2, "loops");
    constitution.register_rule_violation(14, "panics");
    let violations = constitution.collect_violations();
    assert_eq!(violations.len(), 2);
    assert_eq!(violations[0].rule_number, 2);
    assert_eq!(violations[1].rule_number, 14);
    assert!(matches!(violations[0].severity,
        nocturne::space_proof_constitution::Severity::High));
    assert!(matches!(violations[1].severity,
        nocturne::space_proof_constitution::Severity::Critical));
}

#[test]
fn build_config_flags_fold_into_rules() {
    let mut constitution = SpaceProofConstitution::new();
    constitution.auto_detect_violations(true, false);
    assert!(!constitution.rule_ok(3));
    assert!(constitution.rule_ok(14));
}

#[test]
fn analyzer_measures_a_function() {
    let mut analyzer = RustStaticAnalyzer::new(SpaceProofConstitution::new());
    analyzer.begin_function("demo");
    analyzer.register_line("fn demo() {");
    analyzer.register_line("    assert!(x > 0);");
    analyzer.register_line("    for i in 0..10 {");
    analyzer.register_line("        unsafe { danger(); }");
    analyzer.register_line("    }");
    analyzer.register_line("}");
    assert!(analyzer.current_has_unsafe);
    assert_eq!(analyzer.current_assertions, 1);
    analyzer.end_function().unwrap();
    assert!(!analyzer.constitution.rule_ok(11));
    assert_eq!(analyzer.constitution.total_functions, 1);
}

#[test]
fn build_checker_accepts_the_wired_configuration() {
    let checker = NASABuildChecker::new();
    let compliance = checker.check_build("crate-root").unwrap();
    assert!(compliance.warnings_as_errors);
    assert!(compliance.panic_abort);
    assert_eq!(compliance.total_errors, 0);
}

#[test]
fn oauth_token_validity_window() {
    let token = OAuthToken {
        provider: OAuthProvider::GitHub,
        token_data: [0u8; TOKEN_BUFFER_SIZE],
        token_length: 16,
        issued_at: 100,
        expires_at: 200,
        refresh_token: None,
        refresh_token_length: 0,
        scopes: [OAuthScope::SSH; 8],
        scope_count: 1,
    };
    assert!(!token.is_valid(99));
    assert!(token.is_valid(100));
    assert!(token.is_valid(199));
    assert!(!token.is_valid(200));
    let mut empty = token;
    empty.token_length = 0;
    assert!(!empty.is_valid(150));
}

#[test]
fn token_exchanges_for_a_fresh_certificate() {
    let token = OAuthToken {
        provider: OAuthProvider::Custom,
        token_data: [0u8; TOKEN_BUFFER_SIZE],
        token_length: 1,
        issued_at: 0,
        expires_at: 10,
        refresh_token: None,
        refresh_token_length: 0,
        scopes: [OAuthScope::Repo; 8],
        scope_count: 1,
    };
    let certificate = token.exchange_for_ssh_certificate().unwrap();
    assert_eq!(certificate.certificate_length, 0);
    assert_eq!(certificate.valid_until, 0);
}

#[test]
fn tunnel_scaffolding_answers() {
    let channel = ConsciousnessChannel::new().unwrap();
    let influence = channel.receive_security().unwrap();
    assert_eq!(influence.threat_level, 0);
    let mut context = SecurityContext::highest();
    context.adjust(influence.threat_level, influence.recommended_action).unwrap();
    let projection = TunnelProjection::new();
    let tunnel = nocturne::ssh_oauth_port_forward::LocalTunnel {
        tunnel_id: 1,
        local_port: 10_000,
        remote_host: [0u8; 256],
        remote_host_len: 0,
        remote_port: 443,
        active: true,
        bytes_forwarded: 0,
        connections_count: 0,
        last_activity: 0,
        ssh_session_id: 1,
    };
    assert!(matches!(projection.encode(&tunnel), Ok(0)));
    let mut link = QuartoCaminhoLink::establish().unwrap();
    link.sync().unwrap();
    let session = SSHSession {
        session_id: 1,
        host: [0u8; 256],
        host_len: 0,
        port: 22,
        username: [0u8; 64],
        username_len: 0,
        certificate: SSHCertificate::default(),
        connection_start: 0,
        last_keepalive: 0,
        tunnels: [None; 36],
        tunnel_count: 0,
        bytes_in: 0,
        bytes_out: 0,
        alive: false,
    };
    assert!(matches!(session.setup_local_forwarding(10_000, "remote", 443), Ok(())));
}

#[test]
fn token_registration_fills_the_provider_slot() {
    let mut system = SSHOAuthConstitution::new().unwrap();
    let registration = system
        .register_oauth_token(OAuthProvider::GitHub, b"ghp_token", None,
            &[OAuthScope::SSH, OAuthScope::Repo], 1_000)
        .unwrap();
    assert_eq!(registration.provider, OAuthProvider::GitHub);
    assert_eq!(registration.token_valid_until, 4_600);
    assert_eq!(registration.certificate_valid_until, 0);
    assert_eq!(registration.scopes_granted, vec![OAuthScope::SSH, OAuthScope::Repo]);
    let report = system.secure_tunneling_active();
    assert!(report.oauth_token_exchange);
    assert!(report.secure_tunneling);
    assert_eq!(report.local_tunnel_count, 0);

    let too_long = vec![0u8; TOKEN_BUFFER_SIZE + 1];
    let rejected = system.register_oauth_token(OAuthProvider::Google, &too_long, None,
        &[], 1_000);
    assert!(matches!(rejected, Err(SSHError::TokenTooLong)));
    let bad_refresh = system.register_oauth_token(OAuthProvider::Google, b"ok",
        Some(&too_long), &[], 1_000);
    assert!(matches!(bad_refresh, Err(SSHError::TokenTooLong)));
}

#[test]
fn tunnel_creation_respects_slots_and_bounds() {
    let mut system = SSHOAuthConstitution::new().unwrap();
    let no_cert = system.create_local_tunnel(10_000, "remote.example", 443,
        "bastion.example", 22, OAuthProvider::GitLab, 0);
    assert!(matches!(no_cert, Err(SSHError::InvalidToken(_))));

    system
        .register_oauth_token(OAuthProvider::GitLab, b"glpat", None, &[OAuthScope::SSH], 0)
        .unwrap();
    let long_host = "h".repeat(300);
    let too_long = system.create_local_tunnel(10_000, &long_host, 443,
        "bastion.example", 22, OAuthProvider::GitLab, 0);
    assert!(matches!(too_long, Err(SSHError::HostnameTooLong)));

    let created = system
        .create_local_tunnel(10_000, "remote.example", 443, "bastion.example", 22,
            OAuthProvider::GitLab, 0)
        .unwrap();
    assert_eq!(created.tunnel_id, 1);
    assert_eq!(created.local_port, 10_000);
    assert_eq!(created.remote_host, "remote.example");
    let report = system.secure_tunneling_active();
    assert!(report.local_forward_l);
    assert_eq!(report.local_tunnel_count, 1);

    for k in 0..11u16 {
        system
            .create_local_tunnel(10_001 + k, "remote.example", 443, "bastion.example",
                22, OAuthProvider::GitLab, 0)
            .unwrap();
    }
    let full = system.create_local_tunnel(11_000, "remote.example", 443,
        "bastion.example", 22, OAuthProvider::GitLab, 0);
    assert!(matches!(full, Err(SSHError::NoTunnelSlotsAvailable)));

    let summary = system.maintenance_cycle().unwrap();
    assert_eq!(summary.tunnels_closed, 0);
}

#[test]
fn governance_gates_all_approve() {
    let veto = VetoControl;
    let synod = Synod;
    let shadow = ProtonShadow;
    assert!(veto.check(()));
    assert!(synod.vote(()).unanimous());
    assert!(shadow.measure_coherence().stable());
    let lock = Mutex::new(7u64);
    assert_eq!(lock.lock(), Ok(&7u64));
    let _ = CoherenceMetrics;
}

#[test]
fn gate_attestation_keeps_its_digest() {
    assert_eq!(Hiranyagarbha.verify_triplicate(), Ok(()));
    let attestation = Attestation::new(Phase::Superfluid, [4u8; 32]);
    assert_eq!(attestation.hash, [4u8; 32]);
}

#[test]
fn handshake_signing_channel_is_silent() {
    assert_eq!(hash_constitution(SASC_CONSTITUTION), [0u8; 32]);
    assert_eq!(sign_with_shadow_proton([1u8; 32]), Vec::<u8>::new());
}

#[test]
fn handshake_message_encodes_empty() {
    let message = InterstellarMessage {
        protocol_version: "SASC-1.0",
        ethical_framework: SASC_CONSTITUTION,
        coherence_metrics: nocturne::handshake::CoherenceMetrics::coherence_metrics(),
        invitation: Invitation::JoinEthicalConsensus,
        response_expected_within_secs: 31_557_600,
    };
    assert_eq!(message.encode(), Vec::<u8>::new());
}
