use threatforge::models::{
    DataFlow, Date, Element, ElementType, Metadata, Severity, StrideCategory, Threat, ThreatModel,
    TrustBoundary,
};
use threatforge::stride::{analyze, build_rules, crosses_boundary, element_boundary};

fn sample_model() -> ThreatModel {
    ThreatModel {
        version: "1.0".to_string(),
        metadata: Metadata {
            title: "Test".to_string(),
            author: "Test".to_string(),
            created: Date { year: 2026, month: 1, day: 1 },
            modified: Date { year: 2026, month: 1, day: 1 },
            description: String::new(),
        },
        elements: vec![
            Element {
                id: "web-app".to_string(),
                element_type: ElementType::Process,
                name: "Web Application".to_string(),
                trust_zone: "internal".to_string(),
                icon: None,
                description: String::new(),
                technologies: vec![],
                stores: None,
                encryption: None,
            },
            Element {
                id: "db".to_string(),
                element_type: ElementType::DataStore,
                name: "Database".to_string(),
                trust_zone: "internal".to_string(),
                icon: None,
                description: String::new(),
                technologies: vec!["PostgreSQL".to_string()],
                stores: None,
                encryption: None,
            },
            Element {
                id: "user".to_string(),
                element_type: ElementType::ExternalEntity,
                name: "End User".to_string(),
                trust_zone: "external".to_string(),
                icon: None,
                description: String::new(),
                technologies: vec![],
                stores: None,
                encryption: None,
            },
        ],
        data_flows: vec![DataFlow {
            id: "flow-1".to_string(),
            from: "web-app".to_string(),
            to: "db".to_string(),
            protocol: "PostgreSQL/TLS".to_string(),
            data: vec!["user_records".to_string()],
            authenticated: true,
        }],
        trust_boundaries: vec![TrustBoundary {
            id: "boundary-1".to_string(),
            name: "Internal Network".to_string(),
            contains: vec!["web-app".to_string(), "db".to_string()],
        }],
        threats: vec![],
        diagrams: vec![],
    }
}

#[test]
fn test_generates_threats_for_process() {
    let model = sample_model();
    let threats = analyze(&model);
    let process_threats: Vec<_> = threats
        .iter()
        .filter(|t| t.element.as_deref() == Some("web-app"))
        .collect();
    // Process should get: Spoofing, Tampering, Repudiation, InfoDisclosure, DoS, EoP
    assert_eq!(process_threats.len(), 6, "Process should have 6 STRIDE threats");
}

#[test]
fn test_generates_threats_for_data_store() {
    let model = sample_model();
    let threats = analyze(&model);
    let ds_threats: Vec<_> = threats
        .iter()
        .filter(|t| t.element.as_deref() == Some("db"))
        .collect();
    // DataStore should get: Tampering, InfoDisclosure, DoS
    assert_eq!(ds_threats.len(), 3, "DataStore should have 3 threats");
}

#[test]
fn test_generates_threats_for_external_entity() {
    let model = sample_model();
    let threats = analyze(&model);
    let ee_threats: Vec<_> = threats
        .iter()
        .filter(|t| t.element.as_deref() == Some("user"))
        .collect();
    // ExternalEntity should get: Spoofing, Repudiation
    assert_eq!(ee_threats.len(), 2, "ExternalEntity should have 2 threats");
}

#[test]
fn test_generates_threats_for_data_flows() {
    let model = sample_model();
    let threats = analyze(&model);
    let flow_threats: Vec<_> = threats
        .iter()
        .filter(|t| t.flow.as_deref() == Some("flow-1"))
        .collect();
    // DataFlow should get: Tampering, InfoDisclosure, DoS
    assert_eq!(flow_threats.len(), 3, "DataFlow should have 3 threats");
}

#[test]
fn test_total_threat_count() {
    let model = sample_model();
    let threats = analyze(&model);
    // 6 (process) + 3 (data_store) + 2 (external_entity) + 3 (flow) = 14
    assert_eq!(threats.len(), 14, "Total should be 14 threats for the sample model");
}

#[test]
fn test_deduplication_skips_existing() {
    let mut model = sample_model();
    model.threats.push(Threat {
        id: "existing-1".to_string(),
        title: "Existing spoofing".to_string(),
        category: StrideCategory::Spoofing,
        element: Some("web-app".to_string()),
        flow: None,
        severity: Severity::High,
        description: String::new(),
        mitigation: None,
    });

    let threats = analyze(&model);
    let spoofing_web: Vec<_> = threats
        .iter()
        .filter(|t| {
            t.element.as_deref() == Some("web-app") && t.category == StrideCategory::Spoofing
        })
        .collect();
    assert_eq!(
        spoofing_web.len(),
        0,
        "Should not suggest spoofing for web-app since it already exists"
    );
}

#[test]
fn test_threat_titles_contain_element_names() {
    let model = sample_model();
    let threats = analyze(&model);
    let web_threats: Vec<_> = threats
        .iter()
        .filter(|t| t.element.as_deref() == Some("web-app"))
        .collect();
    for t in &web_threats {
        assert!(
            t.title.contains("Web Application"),
            "Threat title '{}' should contain element name 'Web Application'",
            t.title
        );
    }
}

#[test]
fn test_cross_boundary_flow_boosts_severity() {
    let mut model = sample_model();
    // Add a flow from internal to external (crosses boundary)
    model.data_flows.push(DataFlow {
        id: "flow-2".to_string(),
        from: "web-app".to_string(),
        to: "user".to_string(),
        protocol: "HTTPS".to_string(),
        data: vec!["response".to_string()],
        authenticated: false,
    });

    let threats = analyze(&model);
    let cross_flow_threats: Vec<_> = threats
        .iter()
        .filter(|t| t.flow.as_deref() == Some("flow-2"))
        .collect();

    // DoS rule has base severity Medium but should be boosted to High for cross-boundary
    let dos_threat = cross_flow_threats
        .iter()
        .find(|t| t.category == StrideCategory::DenialOfService);
    assert!(dos_threat.is_some(), "Should have DoS threat for cross-boundary flow");
    assert_eq!(
        dos_threat.unwrap().severity,
        Severity::High,
        "Cross-boundary DoS should be boosted from Medium to High"
    );
}

#[test]
fn test_same_boundary_flow_no_boost() {
    let model = sample_model();
    let threats = analyze(&model);
    // flow-1 is web-app -> db, both in boundary-1 (same boundary)
    let dos_threat = threats.iter().find(|t| {
        t.flow.as_deref() == Some("flow-1") && t.category == StrideCategory::DenialOfService
    });
    assert!(dos_threat.is_some());
    assert_eq!(
        dos_threat.unwrap().severity,
        Severity::Medium,
        "Same-boundary flow should keep base severity Medium"
    );
}

#[test]
fn test_scenario_seventeen_suggestions() {
    // web-app (Process), db (DataStore), user (ExternalEntity); one flow inside
    // the boundary, one crossing out of it: 6 + 3 + 2 + 3 + 3 = 17 suggestions.
    let mut model = sample_model();
    model.data_flows.push(DataFlow {
        id: "flow-2".to_string(),
        from: "web-app".to_string(),
        to: "user".to_string(),
        protocol: "HTTPS".to_string(),
        data: vec![],
        authenticated: false,
    });
    let threats = analyze(&model);
    assert_eq!(threats.len(), 17);
    let dos_cross = threats
        .iter()
        .find(|t| {
            t.flow.as_deref() == Some("flow-2") && t.category == StrideCategory::DenialOfService
        })
        .unwrap();
    assert_eq!(dos_cross.severity, Severity::High);
    let dos_same = threats
        .iter()
        .find(|t| {
            t.flow.as_deref() == Some("flow-1") && t.category == StrideCategory::DenialOfService
        })
        .unwrap();
    assert_eq!(dos_same.severity, Severity::Medium);
}

#[test]
fn test_derivation_is_idempotent_after_merge() {
    // Merging a run's suggestions back into the model leaves nothing new to
    // suggest: every key is now recorded.
    let mut model = sample_model();
    let first = analyze(&model);
    assert!(!first.is_empty());
    for t in &first {
        let key_ref = t.element.as_deref().or(t.flow.as_deref()).unwrap().to_string();
        assert!(
            !model.threats.iter().any(|ex| {
                ex.element.as_deref().or(ex.flow.as_deref()) == Some(key_ref.as_str())
                    && ex.category == t.category
            }),
            "a suggestion repeated a key already present"
        );
    }
    model.threats.extend(first);
    let second = analyze(&model);
    assert!(second.is_empty(), "second run after merge should suggest nothing");
}

#[test]
fn test_suggested_ids_have_prefix_and_are_unique() {
    let model = sample_model();
    let threats = analyze(&model);
    for t in &threats {
        assert!(t.id.starts_with("threat-"));
        assert_eq!(t.id.len(), 15);
    }
    let mut ids: Vec<_> = threats.iter().map(|t| t.id.clone()).collect();
    ids.sort();
    ids.dedup();
    assert_eq!(ids.len(), threats.len());
}

#[test]
fn test_exact_spoofing_title() {
    let model = sample_model();
    let threats = analyze(&model);
    assert_eq!(threats[0].category, StrideCategory::Spoofing);
    assert_eq!(threats[0].title, "Spoofing of Web Application");
    assert_eq!(threats[0].element.as_deref(), Some("web-app"));
}

#[test]
fn test_flow_titles_use_resolved_names() {
    let model = sample_model();
    let threats = analyze(&model);
    let flow_tampering = threats
        .iter()
        .find(|t| t.flow.as_deref() == Some("flow-1") && t.category == StrideCategory::Tampering)
        .unwrap();
    assert_eq!(
        flow_tampering.title,
        "Tampering with data flow between Web Application and Database"
    );
}

#[test]
fn test_element_boundary_first_match_wins() {
    let model = sample_model();
    let mut boundaries = model.trust_boundaries.clone();
    boundaries.push(TrustBoundary {
        id: "boundary-2".to_string(),
        name: "Second".to_string(),
        contains: vec!["web-app".to_string()],
    });
    let b = element_boundary(&boundaries, "web-app").unwrap();
    assert_eq!(b.id, "boundary-1");
    assert!(element_boundary(&boundaries, "user").is_none());
    assert!(crosses_boundary(&boundaries, "web-app", "user"));
    assert!(!crosses_boundary(&boundaries, "web-app", "db"));
    // two boundary-less elements are treated as not crossing
    assert!(!crosses_boundary(&boundaries, "user", "other-unbound"));
}

#[test]
fn test_rule_catalog_shape() {
    let rules = build_rules();
    assert_eq!(rules.len(), 14);
    let flow_rules: Vec<_> = rules.iter().filter(|r| r.targets_flows).collect();
    assert_eq!(flow_rules.len(), 3);
    assert_eq!(rules[0].category, StrideCategory::Spoofing);
    assert_eq!(rules[0].title_template, "Spoofing of {name}");
    assert_eq!(rules[13].category, StrideCategory::DenialOfService);
    assert_eq!(rules[13].severity, Severity::Medium);
}
