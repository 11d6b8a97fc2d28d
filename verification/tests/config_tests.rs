use ai_agent_os::decision::DecisionEngine;
use ai_agent_os::gui::{get_recent_problems, set_autonomy_level};
use ai_agent_os::nats::{client_certificate, non_blank, requires_tls, seed_from_file, seed_source, SeedSource};
use ai_agent_os::phantom::{PhantomGateConfig, PhantomGateResult};

#[test]
fn test_config_default() {
    let config = PhantomGateConfig::default();
    assert_eq!(config.base_url, "http://localhost:8000");
    assert!(!config.enabled);
}

#[test]
fn default_config_values() {
    let config = PhantomGateConfig::default();
    assert_eq!(config.timeout_secs, 30);
    assert_eq!(config.bundle_dir, "/tmp/phantom-bundles");
}

#[test]
fn judge_url_and_bundle_file() {
    let config = PhantomGateConfig::default();
    assert_eq!(config.judge_url(), "http://localhost:8000/judge");
    assert_eq!(config.bundle_file_name(1700000000), "/tmp/phantom-bundles/bundle-1700000000.json");
}

#[test]
fn judgment_gets_local_bundle() {
    let r = PhantomGateResult {
        severity: "warning".to_string(),
        insights: vec!["hot".to_string()],
        relevant_adrs: vec![],
        recommendations: vec![],
        bundle_file: String::new(),
        bundle_dir: String::new(),
        notes: vec![],
    };
    let r = r.with_local_bundle("/d/bundle-1.json".to_string(), "/d".to_string());
    assert_eq!(r.bundle_file, "/d/bundle-1.json");
    assert_eq!(r.bundle_dir, "/d");
    assert_eq!(r.severity, "warning");
    assert_eq!(r.insights, vec!["hot".to_string()]);
}

#[test]
fn settings_are_trimmed() {
    assert_eq!(non_blank("  SUAB  \n"), Some("SUAB".to_string()));
    assert_eq!(non_blank("   "), None);
    assert_eq!(non_blank(""), None);
}

#[test]
fn seed_file_skips_comments_and_blanks() {
    assert_eq!(seed_from_file("# seed\n\n   \n  SUAXYZ  \nSUOTHER\n"), Some("SUAXYZ".to_string()));
    assert_eq!(seed_from_file("SUAB\r\n"), Some("SUAB".to_string()));
    assert_eq!(seed_from_file("  # only a comment\n\n"), None);
    assert_eq!(seed_from_file(""), None);
    assert_eq!(seed_from_file("last-line-no-newline"), Some("last-line-no-newline".to_string()));
}

#[test]
fn client_certificate_needs_both() {
    assert_eq!(
        client_certificate(Some(" c.pem ".to_string()), Some("k.pem".to_string())),
        Some(("c.pem".to_string(), "k.pem".to_string()))
    );
    assert_eq!(client_certificate(Some("c.pem".to_string()), None), None);
    assert_eq!(client_certificate(Some("c.pem".to_string()), Some("  ".to_string())), None);
}

#[test]
fn tls_url() {
    assert!(requires_tls("tls://nats:4222"));
    assert!(!requires_tls("nats://nats:4222"));
}

#[test]
fn autonomy_level_bounds() {
    let mut engine = DecisionEngine::new((), ());
    assert_eq!(set_autonomy_level(&mut engine, 0), Ok(()));
    assert_eq!(engine.autonomy_level(), 0);
    assert_eq!(set_autonomy_level(&mut engine, 100), Ok(()));
    assert_eq!(engine.autonomy_level(), 100);
    assert_eq!(set_autonomy_level(&mut engine, 55), Ok(()));
    assert_eq!(engine.autonomy_level(), 55);
    assert_eq!(
        set_autonomy_level(&mut engine, 101),
        Err("Autonomy level must be 0-100".to_string())
    );
    assert_eq!(engine.autonomy_level(), 55);
}

#[test]
fn recent_problems_sample() {
    let p = get_recent_problems("2024-01-01T00:00:00+00:00".to_string());
    assert_eq!(p.len(), 1);
    assert_eq!(p[0].title, "Memory Pressure");
    assert_eq!(p[0].message, "Memory usage reached 85%");
    assert_eq!(p[0].severity, "warning");
    assert_eq!(p[0].timestamp, "2024-01-01T00:00:00+00:00");
}

#[test]
fn seed_source_prefers_inline_seed() {
    assert_eq!(
        seed_source(Some(" SUINLINE ".to_string()), Some("/run/seed".to_string())),
        SeedSource::Inline("SUINLINE".to_string())
    );
    assert_eq!(
        seed_source(Some("   ".to_string()), Some(" /run/seed ".to_string())),
        SeedSource::File("/run/seed".to_string())
    );
    assert_eq!(seed_source(None, Some("".to_string())), SeedSource::Absent);
    assert_eq!(seed_source(None, None), SeedSource::Absent);
}
