use threatforge::models::{generate_element_id, generate_threat_id, ThreatModel};

#[test]
fn test_generate_element_id() {
    assert_eq!(generate_element_id("Web Application"), "web-application");
    assert_eq!(generate_element_id("API Gateway"), "api-gateway");
    assert_eq!(generate_element_id("payment-db"), "payment-db");
    assert_eq!(generate_element_id("  Stripe  API  "), "stripe-api");
}

#[test]
fn test_generate_element_id_empty() {
    assert_eq!(generate_element_id(""), "");
    assert_eq!(generate_element_id("---"), "");
}

#[test]
fn test_generate_threat_id() {
    let id = generate_threat_id();
    assert!(id.starts_with("threat-"));
    assert_eq!(id.len(), 15); // "threat-" (7) + 8 hex chars
}

#[test]
fn test_generate_threat_id_unique() {
    let a = generate_threat_id();
    let b = generate_threat_id();
    assert_ne!(a, b);
}

#[test]
fn test_new_model_defaults() {
    let m = ThreatModel::new("Test Model", "Test Author");
    assert_eq!(m.version, "1.0");
    assert_eq!(m.metadata.title, "Test Model");
    assert_eq!(m.metadata.author, "Test Author");
    assert!(m.metadata.description.is_empty());
    assert!((1..=12).contains(&m.metadata.created.month));
    assert!((1..=31).contains(&m.metadata.created.day));
    assert!(m.elements.is_empty());
    assert!(m.data_flows.is_empty());
    assert!(m.trust_boundaries.is_empty());
    assert!(m.threats.is_empty());
    assert_eq!(m.diagrams.len(), 1);
    assert_eq!(m.diagrams[0].id, "main-dfd");
    assert_eq!(m.diagrams[0].name, "Level 0 DFD");
    assert_eq!(m.diagrams[0].layout_file, ".threatforge/layouts/main-dfd.json");
}
