use threatforge::models::{
    DataFlow, Element, ElementType, Mitigation, MitigationStatus, Severity, StrideCategory,
    Threat, ThreatModel,
};
use threatforge::prompt::build_system_prompt;

#[test]
fn test_build_system_prompt_empty_model() {
    let model = ThreatModel::new("Test Model", "Test Author");
    let prompt = build_system_prompt(&model);

    assert!(prompt.contains("STRIDE"));
    assert!(prompt.contains("Test Model"));
    assert!(prompt.contains("Test Author"));
    assert!(prompt.contains("```threats"));
    assert!(prompt.contains("--- CURRENT THREAT MODEL ---"));
    assert!(prompt.contains("--- END THREAT MODEL ---"));
    // Empty model should not have elements/flows sections
    assert!(!prompt.contains("Elements:"));
    assert!(!prompt.contains("Data Flows:"));
}

#[test]
fn test_build_system_prompt_with_elements() {
    let mut model = ThreatModel::new("Payment Service", "Alice");
    model.elements.push(Element {
        id: "api-gw".to_string(),
        element_type: ElementType::Process,
        name: "API Gateway".to_string(),
        trust_zone: "dmz".to_string(),
        icon: None,
        description: "Main entry point".to_string(),
        technologies: vec!["nginx".to_string()],
        stores: None,
        encryption: None,
    });

    let prompt = build_system_prompt(&model);

    assert!(prompt.contains("Elements:"));
    assert!(prompt.contains("API Gateway"));
    assert!(prompt.contains("api-gw"));
    assert!(prompt.contains("dmz"));
    assert!(prompt.contains("nginx"));
    assert!(prompt.contains("Main entry point"));
}

#[test]
fn test_build_system_prompt_with_flows() {
    let mut model = ThreatModel::new("Test", "Author");
    model.data_flows.push(DataFlow {
        id: "flow-1".to_string(),
        from: "web-app".to_string(),
        to: "api-gw".to_string(),
        protocol: "HTTPS".to_string(),
        data: vec!["user_input".to_string()],
        authenticated: true,
    });

    let prompt = build_system_prompt(&model);

    assert!(prompt.contains("Data Flows:"));
    assert!(prompt.contains("web-app -> api-gw"));
    assert!(prompt.contains("HTTPS"));
    assert!(prompt.contains("authenticated: true"));
}

#[test]
fn test_build_system_prompt_with_threats() {
    let mut model = ThreatModel::new("Test", "Author");
    model.elements.push(Element {
        id: "db".to_string(),
        element_type: ElementType::DataStore,
        name: "Database".to_string(),
        trust_zone: "internal".to_string(),
        icon: None,
        description: String::new(),
        technologies: vec![],
        stores: None,
        encryption: None,
    });
    model.threats.push(Threat {
        id: "threat-1".to_string(),
        title: "SQL Injection".to_string(),
        category: StrideCategory::Tampering,
        element: Some("db".to_string()),
        flow: None,
        severity: Severity::High,
        description: String::new(),
        mitigation: Some(Mitigation {
            status: MitigationStatus::Mitigated,
            description: "Parameterized queries".to_string(),
        }),
    });

    let prompt = build_system_prompt(&model);

    assert!(prompt.contains("Existing Threats (already identified):"));
    assert!(prompt.contains("SQL Injection"));
    assert!(prompt.contains("category: Tampering"));
    assert!(prompt.contains("severity: High"));
    assert!(prompt.contains("element: db"));
    assert!(prompt.contains("mitigation: Mitigated"));
    assert!(prompt.contains("type: DataStore"));
}
