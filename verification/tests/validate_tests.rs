use threatforge::models::{
    DataFlow, Date, Element, ElementType, Metadata, Severity, StrideCategory, Threat, ThreatModel,
    TrustBoundary,
};
use threatforge::validate::{validate, validate_references, validate_version, ValidationError};

fn date() -> Date {
    Date { year: 2026, month: 3, day: 15 }
}

fn element(id: &str, element_type: ElementType, name: &str) -> Element {
    Element {
        id: id.to_string(),
        element_type,
        name: name.to_string(),
        trust_zone: String::new(),
        icon: None,
        description: String::new(),
        technologies: vec![],
        stores: None,
        encryption: None,
    }
}

fn model(version: &str, title: &str) -> ThreatModel {
    ThreatModel {
        version: version.to_string(),
        metadata: Metadata {
            title: title.to_string(),
            author: "Test".to_string(),
            created: date(),
            modified: date(),
            description: String::new(),
        },
        elements: vec![],
        data_flows: vec![],
        trust_boundaries: vec![],
        threats: vec![],
        diagrams: vec![],
    }
}

#[test]
fn test_read_valid_threat_model() {
    let mut m = model("1.0", "Test Model");
    m.elements.push(element("app", ElementType::Process, "Application"));
    assert!(validate(&m).is_ok());
    assert_eq!(m.metadata.title, "Test Model");
    assert_eq!(m.elements.len(), 1);
}

#[test]
fn test_rejects_unsupported_version() {
    let m = model("2.0", "Test");
    let result = validate(&m);
    assert!(result.is_err());
    assert!(
        result.unwrap_err().message().contains("Unsupported"),
        "Error should mention unsupported version"
    );
}

#[test]
fn test_rejects_duplicate_element_ids() {
    let mut m = model("1.0", "Test");
    m.elements.push(element("app", ElementType::Process, "App 1"));
    m.elements.push(element("app", ElementType::Process, "App 2"));
    let result = validate(&m);
    assert!(result.is_err());
    assert!(result.unwrap_err().message().contains("Duplicate"));
}

#[test]
fn test_rejects_invalid_flow_reference() {
    let mut m = model("1.0", "Test");
    m.elements.push(element("app", ElementType::Process, "App"));
    m.data_flows.push(DataFlow {
        id: "flow-1".to_string(),
        from: "app".to_string(),
        to: "nonexistent".to_string(),
        protocol: "HTTPS".to_string(),
        data: vec![],
        authenticated: false,
    });
    let result = validate(&m);
    assert!(result.is_err());
    assert!(result.unwrap_err().message().contains("Invalid reference"));
}

#[test]
fn test_unsupported_version_details() {
    match validate_version("0.9") {
        Err(ValidationError::UnsupportedVersion { version, supported }) => {
            assert_eq!(version, "0.9");
            assert_eq!(supported, vec!["1.0".to_string()]);
        }
        other => panic!("expected UnsupportedVersion, got {:?}", other),
    }
    assert!(validate_version("1.0").is_ok());
}

#[test]
fn test_duplicate_flow_ids_section() {
    let mut m = model("1.0", "Test");
    m.elements.push(element("a", ElementType::Process, "A"));
    m.elements.push(element("b", ElementType::Process, "B"));
    let flow = DataFlow {
        id: "f".to_string(),
        from: "a".to_string(),
        to: "b".to_string(),
        protocol: String::new(),
        data: vec![],
        authenticated: false,
    };
    m.data_flows.push(flow.clone());
    m.data_flows.push(flow);
    match validate_references(&m) {
        Err(ValidationError::DuplicateId { id, section }) => {
            assert_eq!(id, "f");
            assert_eq!(section, "data_flows");
        }
        other => panic!("expected DuplicateId, got {:?}", other),
    }
}

#[test]
fn test_rejects_invalid_boundary_reference() {
    let mut m = model("1.0", "Test");
    m.elements.push(element("app", ElementType::Process, "App"));
    m.trust_boundaries.push(TrustBoundary {
        id: "boundary-1".to_string(),
        name: "Zone".to_string(),
        contains: vec!["app".to_string(), "ghost-node".to_string()],
    });
    match validate_references(&m) {
        Err(ValidationError::InvalidReference { field, reference, valid }) => {
            assert_eq!(field, "trust_boundaries[boundary-1].contains");
            assert_eq!(reference, "ghost-node");
            assert_eq!(valid, vec!["app".to_string()]);
        }
        other => panic!("expected InvalidReference, got {:?}", other),
    }
}

#[test]
fn test_rejects_invalid_threat_references() {
    let mut m = model("1.0", "Test");
    m.elements.push(element("app", ElementType::Process, "App"));
    m.threats.push(Threat {
        id: "threat-1".to_string(),
        title: "Spoofing".to_string(),
        category: StrideCategory::Spoofing,
        element: Some("missing".to_string()),
        flow: None,
        severity: Severity::High,
        description: String::new(),
        mitigation: None,
    });
    match validate_references(&m) {
        Err(ValidationError::InvalidReference { field, reference, .. }) => {
            assert_eq!(field, "threats[threat-1].element");
            assert_eq!(reference, "missing");
        }
        other => panic!("expected InvalidReference, got {:?}", other),
    }
}

#[test]
fn test_validate_checks_version_first() {
    let mut m = model("2.0", "Test");
    m.elements.push(element("app", ElementType::Process, "App 1"));
    m.elements.push(element("app", ElementType::Process, "App 2"));
    match validate(&m) {
        Err(ValidationError::UnsupportedVersion { .. }) => {}
        other => panic!("expected UnsupportedVersion first, got {:?}", other),
    }
}
