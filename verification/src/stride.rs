//! The STRIDE engine: a fixed, ordered rule catalog, a boundary index for
//! severity escalation, and the threat deriver that walks a validated model
//! and suggests deduplicated candidate threats.

use vstd::prelude::*;

use crate::models::{
    DataFlow, Element, ElementType, Severity, StrideCategory, Threat, ThreatModel, TrustBoundary,
};
use crate::text;
use crate::text::str_views;

verus! {

/// The mathematical shape of a threat-generation rule.
#[verifier::ext_equal]
pub struct RuleModel {
    pub category: StrideCategory,
    pub applicable: Seq<ElementType>,
    pub targets_flows: bool,
    pub title: Seq<char>,
    pub description: Seq<char>,
    pub severity: Severity,
}

/// A rule template for generating STRIDE threats. Element-scoped rules carry
/// the element types they apply to; flow-scoped rules target data flows
/// instead. `{name}` in the templates stands for an element's display name,
/// `{source}` and `{target}` for a flow's endpoint names.
#[derive(Debug, Clone)]
pub struct ThreatRule {
    pub category: StrideCategory,
    pub applicable_elements: Vec<ElementType>,
    pub targets_flows: bool,
    pub title_template: String,
    pub description_template: String,
    pub severity: Severity,
}

impl View for ThreatRule {
    type V = RuleModel;

    open spec fn view(&self) -> RuleModel {
        RuleModel {
            category: self.category,
            applicable: self.applicable_elements@,
            targets_flows: self.targets_flows,
            title: self.title_template@,
            description: self.description_template@,
            severity: self.severity,
        }
    }
}

/// The fixed rule catalog, in order: six process rules, three data-store
/// rules, two external-entity rules, three data-flow rules.
pub open spec fn catalog() -> Seq<RuleModel> {
    seq![
        RuleModel {
            category: StrideCategory::Spoofing,
            applicable: seq![ElementType::Process],
            targets_flows: false,
            title: "Spoofing of {name}"@,
            description: "An attacker may impersonate {name} to gain unauthorized access. Ensure authentication mechanisms verify the identity of callers."@,
            severity: Severity::High,
        },
        RuleModel {
            category: StrideCategory::Tampering,
            applicable: seq![ElementType::Process],
            targets_flows: false,
            title: "Tampering with {name}"@,
            description: "An attacker may modify the behavior or inputs of {name}. Validate all inputs and ensure integrity checks are in place."@,
            severity: Severity::High,
        },
        RuleModel {
            category: StrideCategory::Repudiation,
            applicable: seq![ElementType::Process],
            targets_flows: false,
            title: "Repudiation threat for {name}"@,
            description: "{name} may perform actions without adequate logging. Implement audit logging to ensure all operations are traceable."@,
            severity: Severity::Medium,
        },
        RuleModel {
            category: StrideCategory::InformationDisclosure,
            applicable: seq![ElementType::Process],
            targets_flows: false,
            title: "Information disclosure from {name}"@,
            description: "{name} may leak sensitive information through error messages, logs, or side channels. Review outputs for data exposure."@,
            severity: Severity::Medium,
        },
        RuleModel {
            category: StrideCategory::DenialOfService,
            applicable: seq![ElementType::Process],
            targets_flows: false,
            title: "Denial of service on {name}"@,
            description: "An attacker may overwhelm {name} with excessive requests or malformed inputs. Implement rate limiting and input validation."@,
            severity: Severity::Medium,
        },
        RuleModel {
            category: StrideCategory::ElevationOfPrivilege,
            applicable: seq![ElementType::Process],
            targets_flows: false,
            title: "Elevation of privilege via {name}"@,
            description: "An attacker may exploit {name} to gain unauthorized privileges. Apply least-privilege principles and validate authorization."@,
            severity: Severity::High,
        },
        RuleModel {
            category: StrideCategory::Tampering,
            applicable: seq![ElementType::DataStore],
            targets_flows: false,
            title: "Tampering with data in {name}"@,
            description: "An attacker may modify data in {name}. Use access controls, integrity constraints, and audit trails to detect unauthorized changes."@,
            severity: Severity::High,
        },
        RuleModel {
            category: StrideCategory::InformationDisclosure,
            applicable: seq![ElementType::DataStore],
            targets_flows: false,
            title: "Information disclosure from {name}"@,
            description: "Sensitive data stored in {name} may be exposed to unauthorized users. Apply encryption at rest and strict access controls."@,
            severity: Severity::High,
        },
        RuleModel {
            category: StrideCategory::DenialOfService,
            applicable: seq![ElementType::DataStore],
            targets_flows: false,
            title: "Denial of service on {name}"@,
            description: "An attacker may corrupt or exhaust {name} to disrupt service. Implement backups, storage quotas, and connection limits."@,
            severity: Severity::Medium,
        },
        RuleModel {
            category: StrideCategory::Spoofing,
            applicable: seq![ElementType::ExternalEntity],
            targets_flows: false,
            title: "Spoofing of {name}"@,
            description: "An attacker may impersonate {name}. Verify the identity of external actors through authentication and certificate validation."@,
            severity: Severity::High,
        },
        RuleModel {
            category: StrideCategory::Repudiation,
            applicable: seq![ElementType::ExternalEntity],
            targets_flows: false,
            title: "Repudiation by {name}"@,
            description: "{name} may deny having performed an action. Implement non-repudiation mechanisms such as digital signatures or audit logs."@,
            severity: Severity::Medium,
        },
        RuleModel {
            category: StrideCategory::Tampering,
            applicable: Seq::<ElementType>::empty(),
            targets_flows: true,
            title: "Tampering with data flow between {source} and {target}"@,
            description: "Data in transit between {source} and {target} may be modified by an attacker. Use TLS/encryption and message integrity verification."@,
            severity: Severity::High,
        },
        RuleModel {
            category: StrideCategory::InformationDisclosure,
            applicable: Seq::<ElementType>::empty(),
            targets_flows: true,
            title: "Information disclosure on flow between {source} and {target}"@,
            description: "Sensitive data flowing between {source} and {target} may be intercepted. Ensure encryption in transit and minimize data exposure."@,
            severity: Severity::High,
        },
        RuleModel {
            category: StrideCategory::DenialOfService,
            applicable: Seq::<ElementType>::empty(),
            targets_flows: true,
            title: "Denial of service on flow between {source} and {target}"@,
            description: "The communication channel between {source} and {target} may be disrupted. Implement redundancy, timeouts, and retry logic."@,
            severity: Severity::Medium,
        },
    ]
}

/// Build the fixed, ordered set of STRIDE threat rules, derived from the
/// STRIDE-per-element methodology:
/// - Process: Spoofing, Tampering, Repudiation, Information Disclosure,
///   Denial of Service, Elevation of Privilege
/// - Data store: Tampering, Information Disclosure, Denial of Service
/// - External entity: Spoofing, Repudiation
/// - Data flow: Tampering, Information Disclosure, Denial of Service
pub fn build_rules() -> (r: Vec<ThreatRule>)
    ensures
        r@.len() == catalog().len(),
        forall|i: int| 0 <= i < r@.len() ==> #[trigger] r@[i]@ == catalog()[i],
{
    let mut r: Vec<ThreatRule> = Vec::new();
    r.push(ThreatRule {
        category: StrideCategory::Spoofing,
        applicable_elements: vec![ElementType::Process],
        targets_flows: false,
        title_template: "Spoofing of {name}".to_owned(),
        description_template: "An attacker may impersonate {name} to gain unauthorized access. Ensure authentication mechanisms verify the identity of callers.".to_owned(),
        severity: Severity::High,
    });
    r.push(ThreatRule {
        category: StrideCategory::Tampering,
        applicable_elements: vec![ElementType::Process],
        targets_flows: false,
        title_template: "Tampering with {name}".to_owned(),
        description_template: "An attacker may modify the behavior or inputs of {name}. Validate all inputs and ensure integrity checks are in place.".to_owned(),
        severity: Severity::High,
    });
    r.push(ThreatRule {
        category: StrideCategory::Repudiation,
        applicable_elements: vec![ElementType::Process],
        targets_flows: false,
        title_template: "Repudiation threat for {name}".to_owned(),
        description_template: "{name} may perform actions without adequate logging. Implement audit logging to ensure all operations are traceable.".to_owned(),
        severity: Severity::Medium,
    });
    r.push(ThreatRule {
        category: StrideCategory::InformationDisclosure,
        applicable_elements: vec![ElementType::Process],
        targets_flows: false,
        title_template: "Information disclosure from {name}".to_owned(),
        description_template: "{name} may leak sensitive information through error messages, logs, or side channels. Review outputs for data exposure.".to_owned(),
        severity: Severity::Medium,
    });
    r.push(ThreatRule {
        category: StrideCategory::DenialOfService,
        applicable_elements: vec![ElementType::Process],
        targets_flows: false,
        title_template: "Denial of service on {name}".to_owned(),
        description_template: "An attacker may overwhelm {name} with excessive requests or malformed inputs. Implement rate limiting and input validation.".to_owned(),
        severity: Severity::Medium,
    });
    r.push(ThreatRule {
        category: StrideCategory::ElevationOfPrivilege,
        applicable_elements: vec![ElementType::Process],
        targets_flows: false,
        title_template: "Elevation of privilege via {name}".to_owned(),
        description_template: "An attacker may exploit {name} to gain unauthorized privileges. Apply least-privilege principles and validate authorization.".to_owned(),
        severity: Severity::High,
    });
    r.push(ThreatRule {
        category: StrideCategory::Tampering,
        applicable_elements: vec![ElementType::DataStore],
        targets_flows: false,
        title_template: "Tampering with data in {name}".to_owned(),
        description_template: "An attacker may modify data in {name}. Use access controls, integrity constraints, and audit trails to detect unauthorized changes.".to_owned(),
        severity: Severity::High,
    });
    r.push(ThreatRule {
        category: StrideCategory::InformationDisclosure,
        applicable_elements: vec![ElementType::DataStore],
        targets_flows: false,
        title_template: "Information disclosure from {name}".to_owned(),
        description_template: "Sensitive data stored in {name} may be exposed to unauthorized users. Apply encryption at rest and strict access controls.".to_owned(),
        severity: Severity::High,
    });
    r.push(ThreatRule {
        category: StrideCategory::DenialOfService,
        applicable_elements: vec![ElementType::DataStore],
        targets_flows: false,
        title_template: "Denial of service on {name}".to_owned(),
        description_template: "An attacker may corrupt or exhaust {name} to disrupt service. Implement backups, storage quotas, and connection limits.".to_owned(),
        severity: Severity::Medium,
    });
    r.push(ThreatRule {
        category: StrideCategory::Spoofing,
        applicable_elements: vec![ElementType::ExternalEntity],
        targets_flows: false,
        title_template: "Spoofing of {name}".to_owned(),
        description_template: "An attacker may impersonate {name}. Verify the identity of external actors through authentication and certificate validation.".to_owned(),
        severity: Severity::High,
    });
    r.push(ThreatRule {
        category: StrideCategory::Repudiation,
        applicable_elements: vec![ElementType::ExternalEntity],
        targets_flows: false,
        title_template: "Repudiation by {name}".to_owned(),
        description_template: "{name} may deny having performed an action. Implement non-repudiation mechanisms such as digital signatures or audit logs.".to_owned(),
        severity: Severity::Medium,
    });
    r.push(ThreatRule {
        category: StrideCategory::Tampering,
        applicable_elements: Vec::new(),
        targets_flows: true,
        title_template: "Tampering with data flow between {source} and {target}".to_owned(),
        description_template: "Data in transit between {source} and {target} may be modified by an attacker. Use TLS/encryption and message integrity verification.".to_owned(),
        severity: Severity::High,
    });
    r.push(ThreatRule {
        category: StrideCategory::InformationDisclosure,
        applicable_elements: Vec::new(),
        targets_flows: true,
        title_template: "Information disclosure on flow between {source} and {target}".to_owned(),
        description_template: "Sensitive data flowing between {source} and {target} may be intercepted. Ensure encryption in transit and minimize data exposure.".to_owned(),
        severity: Severity::High,
    });
    r.push(ThreatRule {
        category: StrideCategory::DenialOfService,
        applicable_elements: Vec::new(),
        targets_flows: true,
        title_template: "Denial of service on flow between {source} and {target}".to_owned(),
        description_template: "The communication channel between {source} and {target} may be disrupted. Implement redundancy, timeouts, and retry logic.".to_owned(),
        severity: Severity::Medium,
    });
    proof {
        assert forall|i: int| 0 <= i < r@.len() implies #[trigger] r@[i]@ == catalog()[i] by {
            assert(r@[0]@ =~= catalog()[0]);
            assert(r@[1]@ =~= catalog()[1]);
            assert(r@[2]@ =~= catalog()[2]);
            assert(r@[3]@ =~= catalog()[3]);
            assert(r@[4]@ =~= catalog()[4]);
            assert(r@[5]@ =~= catalog()[5]);
            assert(r@[6]@ =~= catalog()[6]);
            assert(r@[7]@ =~= catalog()[7]);
            assert(r@[8]@ =~= catalog()[8]);
            assert(r@[9]@ =~= catalog()[9]);
            assert(r@[10]@ =~= catalog()[10]);
            assert(r@[11]@ =~= catalog()[11]);
            assert(r@[12]@ =~= catalog()[12]);
            assert(r@[13]@ =~= catalog()[13]);
        }
    }
    r
}

/// The first trust boundary, from position `i` on, whose `contains` list
/// includes the element ID.
pub open spec fn boundary_of_from(bs: Seq<TrustBoundary>, eid: Seq<char>, i: int) -> Option<
    TrustBoundary,
>
    decreases bs.len() - i,
{
    if i < 0 || i >= bs.len() {
        None
    } else if str_views(bs[i].contains@).contains(eid) {
        Some(bs[i])
    } else {
        boundary_of_from(bs, eid, i + 1)
    }
}

/// The first trust boundary, in input order, whose `contains` list includes
/// the element ID.
pub open spec fn boundary_of(bs: Seq<TrustBoundary>, eid: Seq<char>) -> Option<TrustBoundary> {
    boundary_of_from(bs, eid, 0)
}

/// The identity of the boundary an element belongs to: the ID of its first
/// containing boundary, or none.
pub open spec fn boundary_id_of(bs: Seq<TrustBoundary>, eid: Seq<char>) -> Option<Seq<char>> {
    match boundary_of(bs, eid) {
        Some(b) => Some(b.id@),
        None => None,
    }
}

/// Whether two elements are separated by a trust boundary: their boundary
/// identities differ. One bound and one unbound side crosses; two unbound
/// sides do not.
pub open spec fn crossing(bs: Seq<TrustBoundary>, source: Seq<char>, target: Seq<char>) -> bool {
    boundary_id_of(bs, source) != boundary_id_of(bs, target)
}

/// Which trust boundary (if any) an element belongs to: the first boundary in
/// input order whose `contains` list includes the element ID.
pub fn element_boundary<'a>(boundaries: &'a [TrustBoundary], element_id: &str) -> (r: Option<
    &'a TrustBoundary,
>)
    ensures
        match r {
            Some(b) => boundary_of(boundaries@, element_id@) == Some(*b),
            None => boundary_of(boundaries@, element_id@) is None,
        },
{
    let n = boundaries.len();
    let mut i: usize = 0;
    while i < n
        invariant
            n == boundaries@.len(),
            i <= n,
            boundary_of(boundaries@, element_id@) == boundary_of_from(
                boundaries@,
                element_id@,
                i as int,
            ),
        decreases n - i,
    {
        let b = &boundaries[i];
        if text::contains_string(&b.contains, element_id) {
            return Some(b);
        }
        i = i + 1;
    }
    None
}

/// Whether `source` and `target` are in different trust boundaries (or exactly
/// one of them is unbound).
pub fn crosses_boundary(boundaries: &[TrustBoundary], source: &str, target: &str) -> (r: bool)
    ensures
        r == crossing(boundaries@, source@, target@),
{
    let sb = element_boundary(boundaries, source);
    let tb = element_boundary(boundaries, target);
    match (sb, tb) {
        (None, None) => false,
        (Some(x), Some(y)) => !text::str_eq(x.id.as_str(), y.id.as_str()),
        _ => true,
    }
}

/// The display name of the element with the given ID: the first element whose
/// ID matches, from position `i` on, falling back to the raw ID.
pub open spec fn resolved_name_from(elems: Seq<Element>, eid: Seq<char>, i: int) -> Seq<char>
    decreases elems.len() - i,
{
    if i < 0 || i >= elems.len() {
        eid
    } else if elems[i].id@ == eid {
        elems[i].name@
    } else {
        resolved_name_from(elems, eid, i + 1)
    }
}

/// The display name of the element with the given ID, falling back to the raw
/// ID when no element matches (which only happens on an unvalidated model).
pub open spec fn resolved_name(elems: Seq<Element>, eid: Seq<char>) -> Seq<char> {
    resolved_name_from(elems, eid, 0)
}

/// Look up an element's display name by ID, falling back to the raw ID.
fn element_name<'a>(model: &'a ThreatModel, element_id: &'a str) -> (r: &'a str)
    ensures
        r@ == resolved_name(model.elements@, element_id@),
{
    let n = model.elements.len();
    let mut i: usize = 0;
    while i < n
        invariant
            n == model.elements@.len(),
            i <= n,
            resolved_name(model.elements@, element_id@) == resolved_name_from(
                model.elements@,
                element_id@,
                i as int,
            ),
        decreases n - i,
    {
        let e = &model.elements[i];
        if text::str_eq(e.id.as_str(), element_id) {
            return e.name.as_str();
        }
        i = i + 1;
    }
    element_id
}

/// The dedup key of a threat: its reference ID paired with its category. A
/// threat that references an element and a flow at once keys on the element.
pub open spec fn threat_key(t: Threat) -> Option<(Seq<char>, StrideCategory)> {
    if t.element is Some {
        Some((t.element->0@, t.category))
    } else if t.flow is Some {
        Some((t.flow->0@, t.category))
    } else {
        None
    }
}

/// Whether some existing threat already carries the key `(id, cat)`.
pub open spec fn key_exists(threats: Seq<Threat>, id: Seq<char>, cat: StrideCategory) -> bool {
    exists|i: int| 0 <= i < threats.len() && #[trigger] threat_key(threats[i]) == Some((id, cat))
}

/// Scan the existing threats for the dedup key `(id, cat)`.
fn existing_key_exists(threats: &Vec<Threat>, id: &str, cat: StrideCategory) -> (r: bool)
    ensures
        r == key_exists(threats@, id@, cat),
{
    let n = threats.len();
    let mut i: usize = 0;
    while i < n
        invariant
            n == threats@.len(),
            i <= n,
            forall|j: int| 0 <= j < i ==> #[trigger] threat_key(threats@[j]) != Some((id@, cat)),
        decreases n - i,
    {
        let t = &threats[i];
        if let Some(e) = &t.element {
            if t.category == cat && text::str_eq(e.as_str(), id) {
                proof {
                    assert(threat_key(threats@[i as int]) == Some((id@, cat)));
                }
                return true;
            }
        } else if let Some(f) = &t.flow {
            if t.category == cat && text::str_eq(f.as_str(), id) {
                proof {
                    assert(threat_key(threats@[i as int]) == Some((id@, cat)));
                }
                return true;
            }
        }
        i = i + 1;
    }
    false
}

/// The mathematical shape of a suggested threat: every field of the `Threat`
/// the deriver synthesizes except its freshly generated ID.
#[verifier::ext_equal]
pub struct Suggestion {
    pub category: StrideCategory,
    pub element: Option<Seq<char>>,
    pub flow: Option<Seq<char>>,
    pub severity: Severity,
    pub title: Seq<char>,
    pub description: Seq<char>,
}

/// Whether an element-scoped rule applies to an element of the given type.
pub open spec fn rule_applies(r: RuleModel, t: ElementType) -> bool {
    &&& !r.targets_flows
    &&& r.applicable.contains(t)
}

/// One step up the severity ladder for a boundary-crossing flow: Low becomes
/// Medium and Medium becomes High; every other severity is left unchanged.
pub open spec fn escalated(s: Severity) -> Severity {
    match s {
        Severity::Medium => Severity::High,
        Severity::Low => Severity::Medium,
        other => other,
    }
}

/// Law: escalation moves exactly one step up the severity ladder — Low to
/// Medium and Medium to High — and leaves Info, High and Critical unchanged,
/// so Critical is never produced and High is never escalated further.
pub proof fn lemma_escalation_one_step(s: Severity)
    ensures
        s == Severity::Low || s == Severity::Medium ==> escalated(s).rank() == s.rank() + 1,
        s != Severity::Low && s != Severity::Medium ==> escalated(s) == s,
{
}

/// The suggestion an element-scoped rule produces for an element.
pub open spec fn element_suggestion(e: Element, r: RuleModel) -> Suggestion {
    Suggestion {
        category: r.category,
        element: Some(e.id@),
        flow: None,
        severity: r.severity,
        title: text::replace_seq(r.title, "{name}"@, e.name@),
        description: text::replace_seq(r.description, "{name}"@, e.name@),
    }
}

/// The suggestion a flow-scoped rule produces for a data flow: endpoint names
/// resolved (falling back to raw IDs), severity escalated one step when the
/// flow crosses a trust boundary.
pub open spec fn flow_suggestion(m: ThreatModel, f: DataFlow, r: RuleModel) -> Suggestion {
    let src = resolved_name(m.elements@, f.from@);
    let tgt = resolved_name(m.elements@, f.to@);
    Suggestion {
        category: r.category,
        element: None,
        flow: Some(f.id@),
        severity: if crossing(m.trust_boundaries@, f.from@, f.to@) {
            escalated(r.severity)
        } else {
            r.severity
        },
        title: text::replace_seq(
            text::replace_seq(r.title, "{source}"@, src),
            "{target}"@,
            tgt,
        ),
        description: text::replace_seq(
            text::replace_seq(r.description, "{source}"@, src),
            "{target}"@,
            tgt,
        ),
    }
}

/// The suggestions the first `j` catalog rules produce for one element:
/// applicable rules, in catalog order, whose key is not already recorded.
pub open spec fn element_pass_for(m: ThreatModel, e: Element, j: int) -> Seq<Suggestion>
    decreases j,
{
    if j <= 0 {
        Seq::<Suggestion>::empty()
    } else {
        element_pass_for(m, e, j - 1) + (if rule_applies(catalog()[j - 1], e.element_type)
            && !key_exists(m.threats@, e.id@, catalog()[j - 1].category) {
            seq![element_suggestion(e, catalog()[j - 1])]
        } else {
            Seq::<Suggestion>::empty()
        })
    }
}

/// The suggestions of the element pass over the first `i` elements.
pub open spec fn element_pass_to(m: ThreatModel, i: int) -> Seq<Suggestion>
    decreases i,
{
    if i <= 0 {
        Seq::<Suggestion>::empty()
    } else {
        element_pass_to(m, i - 1) + element_pass_for(
            m,
            m.elements@[i - 1],
            catalog().len() as int,
        )
    }
}

/// The suggestions the first `j` catalog rules produce for one data flow:
/// flow-scoped rules, in catalog order, whose key is not already recorded.
pub open spec fn flow_pass_for(m: ThreatModel, f: DataFlow, j: int) -> Seq<Suggestion>
    decreases j,
{
    if j <= 0 {
        Seq::<Suggestion>::empty()
    } else {
        flow_pass_for(m, f, j - 1) + (if catalog()[j - 1].targets_flows && !key_exists(
            m.threats@,
            f.id@,
            catalog()[j - 1].category,
        ) {
            seq![flow_suggestion(m, f, catalog()[j - 1])]
        } else {
            Seq::<Suggestion>::empty()
        })
    }
}

/// The suggestions of the flow pass over the first `i` data flows.
pub open spec fn flow_pass_to(m: ThreatModel, i: int) -> Seq<Suggestion>
    decreases i,
{
    if i <= 0 {
        Seq::<Suggestion>::empty()
    } else {
        flow_pass_to(m, i - 1) + flow_pass_for(m, m.data_flows@[i - 1], catalog().len() as int)
    }
}

/// Everything one derivation run suggests: the element pass over all elements
/// in input order, then the flow pass over all data flows in input order,
/// rules in catalog order within each target.
pub open spec fn derived_suggestions(m: ThreatModel) -> Seq<Suggestion> {
    element_pass_to(m, m.elements@.len() as int) + flow_pass_to(m, m.data_flows@.len() as int)
}

/// Whether a synthesized threat realizes a suggestion: every field agrees,
/// the mitigation is unset, and the fresh ID has the generated shape.
pub open spec fn realizes_suggestion(t: Threat, s: Suggestion) -> bool {
    &&& t.category == s.category
    &&& (match s.element {
        Some(v) => t.element is Some && t.element->0@ == v,
        None => t.element is None,
    })
    &&& (match s.flow {
        Some(v) => t.flow is Some && t.flow->0@ == v,
        None => t.flow is None,
    })
    &&& t.severity == s.severity
    &&& t.title@ == s.title
    &&& t.description@ == s.description
    &&& t.mitigation is None
    &&& t.id@.len() == 15
    &&& t.id@.subrange(0, 7) == "threat-"@
}

/// Whether `v` contains the element type `t`.
fn contains_element_type(v: &Vec<ElementType>, t: ElementType) -> (r: bool)
    ensures
        r == v@.contains(t),
{
    let n = v.len();
    let mut i: usize = 0;
    while i < n
        invariant
            n == v@.len(),
            i <= n,
            forall|j: int| 0 <= j < i ==> v@[j] != t,
        decreases n - i,
    {
        if v[i] == t {
            return true;
        }
        i = i + 1;
    }
    false
}

/// Analyze a threat model using the STRIDE-per-element methodology: apply the
/// rule catalog to every element and data flow, skip keys already recorded in
/// the model's threats, and return the new suggestions in derivation order.
/// The deriver expects a validated model but degrades gracefully on any input;
/// it never mutates the model.
pub fn analyze(model: &ThreatModel) -> (r: Vec<Threat>)
    ensures
        r@.len() == derived_suggestions(*model).len(),
        forall|i: int| 0 <= i < r@.len() ==> realizes_suggestion(
            #[trigger] r@[i],
            derived_suggestions(*model)[i],
        ),
{
    let ghost m = *model;
    let rules = build_rules();
    let nrules = rules.len();
    let mut out: Vec<Threat> = Vec::new();
    let ghost mut sofar: Seq<Suggestion> = Seq::<Suggestion>::empty();
    proof {
        reveal_strlit("{name}");
        reveal_strlit("{source}");
        reveal_strlit("{target}");
    }

    let ne = model.elements.len();
    let mut ei: usize = 0;
    while ei < ne
        invariant
            m == *model,
            ne == m.elements@.len(),
            ei <= ne,
            nrules == rules@.len(),
            nrules == catalog().len(),
            forall|k: int| 0 <= k < rules@.len() ==> #[trigger] rules@[k]@ == catalog()[k],
            sofar == element_pass_to(m, ei as int),
            out@.len() == sofar.len(),
            forall|k: int| 0 <= k < out@.len() ==> realizes_suggestion(#[trigger] out@[k], sofar[k]),
            "{name}"@.len() > 0,
            "{source}"@.len() > 0,
            "{target}"@.len() > 0,
        decreases ne - ei,
    {
        let element = &model.elements[ei];
        let mut j: usize = 0;
        while j < nrules
            invariant
                m == *model,
                ei < m.elements@.len(),
                element == &m.elements@[ei as int],
                nrules == rules@.len(),
                nrules == catalog().len(),
                forall|k: int| 0 <= k < rules@.len() ==> #[trigger] rules@[k]@ == catalog()[k],
                j <= nrules,
                sofar == element_pass_to(m, ei as int) + element_pass_for(m, *element, j as int),
                out@.len() == sofar.len(),
                forall|k: int| 0 <= k < out@.len() ==> realizes_suggestion(
                    #[trigger] out@[k],
                    sofar[k],
                ),
                "{name}"@.len() > 0,
            decreases nrules - j,
        {
            let rule = &rules[j];
            proof {
                assert(rules@[j as int]@ == catalog()[j as int]);
                assert(rule.title_template@ == catalog()[j as int].title);
                assert(rule.description_template@ == catalog()[j as int].description);
                assert(rule.applicable_elements@ == catalog()[j as int].applicable);
            }
            if !rule.targets_flows && contains_element_type(
                &rule.applicable_elements,
                element.element_type,
            ) && !existing_key_exists(&model.threats, element.id.as_str(), rule.category) {
                let title = text::replace_str(
                    rule.title_template.as_str(),
                    "{name}",
                    element.name.as_str(),
                );
                let description = text::replace_str(
                    rule.description_template.as_str(),
                    "{name}",
                    element.name.as_str(),
                );
                let t = Threat {
                    id: crate::models::generate_threat_id(),
                    title,
                    category: rule.category,
                    element: Some(element.id.clone()),
                    flow: None,
                    severity: rule.severity,
                    description,
                    mitigation: None,
                };
                proof {
                    assert(rule_applies(catalog()[j as int], element.element_type));
                    assert(realizes_suggestion(t, element_suggestion(*element, catalog()[j as int])));
                    sofar = sofar + seq![element_suggestion(*element, catalog()[j as int])];
                }
                out.push(t);
            } else {
                proof {
                    assert(!(rule_applies(catalog()[j as int], element.element_type) && !key_exists(
                        m.threats@,
                        element.id@,
                        catalog()[j as int].category,
                    )));
                }
            }
            proof {
                assert(element_pass_for(m, *element, j + 1) == element_pass_for(
                    m,
                    *element,
                    j as int,
                ) + (if rule_applies(catalog()[j as int], element.element_type) && !key_exists(
                    m.threats@,
                    element.id@,
                    catalog()[j as int].category,
                ) {
                    seq![element_suggestion(*element, catalog()[j as int])]
                } else {
                    Seq::<Suggestion>::empty()
                }));
                assert(sofar =~= element_pass_to(m, ei as int) + element_pass_for(
                    m,
                    *element,
                    j + 1,
                ));
            }
            j = j + 1;
        }
        proof {
            assert(element_pass_to(m, ei + 1) == element_pass_to(m, ei as int) + element_pass_for(
                m,
                m.elements@[ei as int],
                catalog().len() as int,
            ));
        }
        ei = ei + 1;
    }

    let nf = model.data_flows.len();
    let mut fi: usize = 0;
    while fi < nf
        invariant
            m == *model,
            nf == m.data_flows@.len(),
            fi <= nf,
            nrules == rules@.len(),
            nrules == catalog().len(),
            forall|k: int| 0 <= k < rules@.len() ==> #[trigger] rules@[k]@ == catalog()[k],
            sofar == element_pass_to(m, m.elements@.len() as int) + flow_pass_to(m, fi as int),
            out@.len() == sofar.len(),
            forall|k: int| 0 <= k < out@.len() ==> realizes_suggestion(#[trigger] out@[k], sofar[k]),
            "{source}"@.len() > 0,
            "{target}"@.len() > 0,
        decreases nf - fi,
    {
        let flow = &model.data_flows[fi];
        let source_name = element_name(model, flow.from.as_str()).to_owned();
        let target_name = element_name(model, flow.to.as_str()).to_owned();
        let crossing_flow = crosses_boundary(
            model.trust_boundaries.as_slice(),
            flow.from.as_str(),
            flow.to.as_str(),
        );
        let ghost fsofar = sofar;
        let mut j: usize = 0;
        while j < nrules
            invariant
                m == *model,
                fi < m.data_flows@.len(),
                flow == &m.data_flows@[fi as int],
                source_name@ == resolved_name(m.elements@, flow.from@),
                target_name@ == resolved_name(m.elements@, flow.to@),
                crossing_flow == crossing(m.trust_boundaries@, flow.from@, flow.to@),
                nrules == rules@.len(),
                nrules == catalog().len(),
                forall|k: int| 0 <= k < rules@.len() ==> #[trigger] rules@[k]@ == catalog()[k],
                j <= nrules,
                fsofar == element_pass_to(m, m.elements@.len() as int) + flow_pass_to(m, fi as int),
                sofar == fsofar + flow_pass_for(m, *flow, j as int),
                out@.len() == sofar.len(),
                forall|k: int| 0 <= k < out@.len() ==> realizes_suggestion(
                    #[trigger] out@[k],
                    sofar[k],
                ),
                "{source}"@.len() > 0,
                "{target}"@.len() > 0,
            decreases nrules - j,
        {
            let rule = &rules[j];
            proof {
                assert(rules@[j as int]@ == catalog()[j as int]);
                assert(rule.title_template@ == catalog()[j as int].title);
                assert(rule.description_template@ == catalog()[j as int].description);
            }
            if rule.targets_flows && !existing_key_exists(
                &model.threats,
                flow.id.as_str(),
                rule.category,
            ) {
                let severity = if crossing_flow {
                    match rule.severity {
                        Severity::Medium => Severity::High,
                        Severity::Low => Severity::Medium,
                        _ => rule.severity,
                    }
                } else {
                    rule.severity
                };
                let title_mid = text::replace_str(
                    rule.title_template.as_str(),
                    "{source}",
                    source_name.as_str(),
                );
                let title = text::replace_str(title_mid.as_str(), "{target}", target_name.as_str());
                let descr_mid = text::replace_str(
                    rule.description_template.as_str(),
                    "{source}",
                    source_name.as_str(),
                );
                let description = text::replace_str(
                    descr_mid.as_str(),
                    "{target}",
                    target_name.as_str(),
                );
                let t = Threat {
                    id: crate::models::generate_threat_id(),
                    title,
                    category: rule.category,
                    element: None,
                    flow: Some(flow.id.clone()),
                    severity,
                    description,
                    mitigation: None,
                };
                proof {
                    assert(severity == if crossing(m.trust_boundaries@, flow.from@, flow.to@) {
                        escalated(catalog()[j as int].severity)
                    } else {
                        catalog()[j as int].severity
                    });
                    assert(realizes_suggestion(t, flow_suggestion(m, *flow, catalog()[j as int])));
                    sofar = sofar + seq![flow_suggestion(m, *flow, catalog()[j as int])];
                }
                out.push(t);
            } else {
                proof {
                    assert(!(catalog()[j as int].targets_flows && !key_exists(
                        m.threats@,
                        flow.id@,
                        catalog()[j as int].category,
                    )));
                }
            }
            proof {
                assert(flow_pass_for(m, *flow, j + 1) == flow_pass_for(m, *flow, j as int) + (
                if catalog()[j as int].targets_flows && !key_exists(
                    m.threats@,
                    flow.id@,
                    catalog()[j as int].category,
                ) {
                    seq![flow_suggestion(m, *flow, catalog()[j as int])]
                } else {
                    Seq::<Suggestion>::empty()
                }));
                assert(sofar =~= fsofar + flow_pass_for(m, *flow, j + 1));
            }
            j = j + 1;
        }
        proof {
            assert(flow_pass_to(m, fi + 1) == flow_pass_to(m, fi as int) + flow_pass_for(
                m,
                m.data_flows@[fi as int],
                catalog().len() as int,
            ));
            assert(sofar =~= element_pass_to(m, m.elements@.len() as int) + flow_pass_to(
                m,
                fi + 1,
            ));
        }
        fi = fi + 1;
    }

    proof {
        assert(sofar == derived_suggestions(m));
    }
    out
}

/// The dedup key a suggestion would carry once merged into the model: its
/// reference ID paired with its category.
pub open spec fn suggestion_key(s: Suggestion) -> Option<(Seq<char>, StrideCategory)> {
    if s.element is Some {
        Some((s.element->0, s.category))
    } else if s.flow is Some {
        Some((s.flow->0, s.category))
    } else {
        None
    }
}

/// A suggestion whose key is not already recorded among the model's threats.
pub open spec fn suggestion_fresh(m: ThreatModel, s: Suggestion) -> bool {
    match suggestion_key(s) {
        Some(k) => !key_exists(m.threats@, k.0, k.1),
        None => false,
    }
}

proof fn lemma_element_pass_for_fresh(m: ThreatModel, e: Element, j: int)
    ensures
        forall|i: int| 0 <= i < element_pass_for(m, e, j).len() ==> suggestion_fresh(
            m,
            #[trigger] element_pass_for(m, e, j)[i],
        ),
    decreases j,
{
    if j > 0 {
        lemma_element_pass_for_fresh(m, e, j - 1);
        assert forall|i: int| 0 <= i < element_pass_for(m, e, j).len() implies suggestion_fresh(
            m,
            #[trigger] element_pass_for(m, e, j)[i],
        ) by {
            if i < element_pass_for(m, e, j - 1).len() {
                assert(element_pass_for(m, e, j)[i] == element_pass_for(m, e, j - 1)[i]);
            }
        }
    }
}

proof fn lemma_element_pass_to_fresh(m: ThreatModel, i: int)
    ensures
        forall|k: int| 0 <= k < element_pass_to(m, i).len() ==> suggestion_fresh(
            m,
            #[trigger] element_pass_to(m, i)[k],
        ),
    decreases i,
{
    if i > 0 {
        lemma_element_pass_to_fresh(m, i - 1);
        lemma_element_pass_for_fresh(m, m.elements@[i - 1], catalog().len() as int);
        assert forall|k: int| 0 <= k < element_pass_to(m, i).len() implies suggestion_fresh(
            m,
            #[trigger] element_pass_to(m, i)[k],
        ) by {
            if k < element_pass_to(m, i - 1).len() {
                assert(element_pass_to(m, i)[k] == element_pass_to(m, i - 1)[k]);
            } else {
                assert(element_pass_to(m, i)[k] == element_pass_for(
                    m,
                    m.elements@[i - 1],
                    catalog().len() as int,
                )[k - element_pass_to(m, i - 1).len()]);
            }
        }
    }
}

proof fn lemma_flow_pass_for_fresh(m: ThreatModel, f: DataFlow, j: int)
    ensures
        forall|i: int| 0 <= i < flow_pass_for(m, f, j).len() ==> suggestion_fresh(
            m,
            #[trigger] flow_pass_for(m, f, j)[i],
        ),
    decreases j,
{
    if j > 0 {
        lemma_flow_pass_for_fresh(m, f, j - 1);
        assert forall|i: int| 0 <= i < flow_pass_for(m, f, j).len() implies suggestion_fresh(
            m,
            #[trigger] flow_pass_for(m, f, j)[i],
        ) by {
            if i < flow_pass_for(m, f, j - 1).len() {
                assert(flow_pass_for(m, f, j)[i] == flow_pass_for(m, f, j - 1)[i]);
            }
        }
    }
}

proof fn lemma_flow_pass_to_fresh(m: ThreatModel, i: int)
    ensures
        forall|k: int| 0 <= k < flow_pass_to(m, i).len() ==> suggestion_fresh(
            m,
            #[trigger] flow_pass_to(m, i)[k],
        ),
    decreases i,
{
    if i > 0 {
        lemma_flow_pass_to_fresh(m, i - 1);
        lemma_flow_pass_for_fresh(m, m.data_flows@[i - 1], catalog().len() as int);
        assert forall|k: int| 0 <= k < flow_pass_to(m, i).len() implies suggestion_fresh(
            m,
            #[trigger] flow_pass_to(m, i)[k],
        ) by {
            if k < flow_pass_to(m, i - 1).len() {
                assert(flow_pass_to(m, i)[k] == flow_pass_to(m, i - 1)[k]);
            } else {
                assert(flow_pass_to(m, i)[k] == flow_pass_for(
                    m,
                    m.data_flows@[i - 1],
                    catalog().len() as int,
                )[k - flow_pass_to(m, i - 1).len()]);
            }
        }
    }
}

/// Law: idempotent suggestion. Every suggestion a derivation run produces
/// carries a key that is not recorded among the model's existing threats. In
/// particular, once a run's output is merged into the model, a second run on
/// the merged model yields no suggestion whose key matches any key already
/// present after the merge.
pub proof fn lemma_derivation_avoids_existing_keys(m: ThreatModel)
    ensures
        forall|i: int| 0 <= i < derived_suggestions(m).len() ==> suggestion_fresh(
            m,
            #[trigger] derived_suggestions(m)[i],
        ),
{
    let ne = m.elements@.len() as int;
    let nf = m.data_flows@.len() as int;
    lemma_element_pass_to_fresh(m, ne);
    lemma_flow_pass_to_fresh(m, nf);
    assert forall|i: int| 0 <= i < derived_suggestions(m).len() implies suggestion_fresh(
        m,
        #[trigger] derived_suggestions(m)[i],
    ) by {
        if i < element_pass_to(m, ne).len() {
            assert(derived_suggestions(m)[i] == element_pass_to(m, ne)[i]);
        } else {
            assert(derived_suggestions(m)[i] == flow_pass_to(m, nf)[i - element_pass_to(
                m,
                ne,
            ).len()]);
        }
    }
}

proof fn lemma_element_pass_for_complete(m: ThreatModel, e: Element, j: int, rj: int)
    requires
        0 <= rj < j <= catalog().len(),
        rule_applies(catalog()[rj], e.element_type),
        !key_exists(m.threats@, e.id@, catalog()[rj].category),
    ensures
        exists|k: int| 0 <= k < element_pass_for(m, e, j).len() && #[trigger] element_pass_for(
            m,
            e,
            j,
        )[k] == element_suggestion(e, catalog()[rj]),
    decreases j,
{
    if rj == j - 1 {
        let prev = element_pass_for(m, e, j - 1);
        assert(element_pass_for(m, e, j)[prev.len() as int] == element_suggestion(
            e,
            catalog()[rj],
        ));
    } else {
        lemma_element_pass_for_complete(m, e, j - 1, rj);
        let k = choose|k: int|
            0 <= k < element_pass_for(m, e, j - 1).len() && #[trigger] element_pass_for(
                m,
                e,
                j - 1,
            )[k] == element_suggestion(e, catalog()[rj]);
        assert(element_pass_for(m, e, j)[k] == element_pass_for(m, e, j - 1)[k]);
    }
}

proof fn lemma_element_pass_to_complete(m: ThreatModel, ei: int, i: int, rj: int)
    requires
        0 <= ei < i <= m.elements@.len(),
        0 <= rj < catalog().len(),
        rule_applies(catalog()[rj], m.elements@[ei].element_type),
        !key_exists(m.threats@, m.elements@[ei].id@, catalog()[rj].category),
    ensures
        exists|k: int| 0 <= k < element_pass_to(m, i).len() && #[trigger] element_pass_to(m, i)[k]
            == element_suggestion(m.elements@[ei], catalog()[rj]),
    decreases i,
{
    if i == ei + 1 {
        lemma_element_pass_for_complete(m, m.elements@[ei], catalog().len() as int, rj);
        let k = choose|k: int|
            0 <= k < element_pass_for(m, m.elements@[ei], catalog().len() as int).len()
                && #[trigger] element_pass_for(m, m.elements@[ei], catalog().len() as int)[k]
                == element_suggestion(m.elements@[ei], catalog()[rj]);
        assert(element_pass_to(m, i)[element_pass_to(m, i - 1).len() + k] == element_suggestion(
            m.elements@[ei],
            catalog()[rj],
        ));
    } else {
        lemma_element_pass_to_complete(m, ei, i - 1, rj);
        let k = choose|k: int|
            0 <= k < element_pass_to(m, i - 1).len() && #[trigger] element_pass_to(m, i - 1)[k]
                == element_suggestion(m.elements@[ei], catalog()[rj]);
        assert(element_pass_to(m, i)[k] == element_pass_to(m, i - 1)[k]);
    }
}

proof fn lemma_flow_pass_for_complete(m: ThreatModel, f: DataFlow, j: int, rj: int)
    requires
        0 <= rj < j <= catalog().len(),
        catalog()[rj].targets_flows,
        !key_exists(m.threats@, f.id@, catalog()[rj].category),
    ensures
        exists|k: int| 0 <= k < flow_pass_for(m, f, j).len() && #[trigger] flow_pass_for(
            m,
            f,
            j,
        )[k] == flow_suggestion(m, f, catalog()[rj]),
    decreases j,
{
    if rj == j - 1 {
        let prev = flow_pass_for(m, f, j - 1);
        assert(flow_pass_for(m, f, j)[prev.len() as int] == flow_suggestion(m, f, catalog()[rj]));
    } else {
        lemma_flow_pass_for_complete(m, f, j - 1, rj);
        let k = choose|k: int|
            0 <= k < flow_pass_for(m, f, j - 1).len() && #[trigger] flow_pass_for(m, f, j - 1)[k]
                == flow_suggestion(m, f, catalog()[rj]);
        assert(flow_pass_for(m, f, j)[k] == flow_pass_for(m, f, j - 1)[k]);
    }
}

proof fn lemma_flow_pass_to_complete(m: ThreatModel, fi: int, i: int, rj: int)
    requires
        0 <= fi < i <= m.data_flows@.len(),
        0 <= rj < catalog().len(),
        catalog()[rj].targets_flows,
        !key_exists(m.threats@, m.data_flows@[fi].id@, catalog()[rj].category),
    ensures
        exists|k: int| 0 <= k < flow_pass_to(m, i).len() && #[trigger] flow_pass_to(m, i)[k]
            == flow_suggestion(m, m.data_flows@[fi], catalog()[rj]),
    decreases i,
{
    if i == fi + 1 {
        lemma_flow_pass_for_complete(m, m.data_flows@[fi], catalog().len() as int, rj);
        let k = choose|k: int|
            0 <= k < flow_pass_for(m, m.data_flows@[fi], catalog().len() as int).len()
                && #[trigger] flow_pass_for(m, m.data_flows@[fi], catalog().len() as int)[k]
                == flow_suggestion(m, m.data_flows@[fi], catalog()[rj]);
        assert(flow_pass_to(m, i)[flow_pass_to(m, i - 1).len() + k] == flow_suggestion(
            m,
            m.data_flows@[fi],
            catalog()[rj],
        ));
    } else {
        lemma_flow_pass_to_complete(m, fi, i - 1, rj);
        let k = choose|k: int|
            0 <= k < flow_pass_to(m, i - 1).len() && #[trigger] flow_pass_to(m, i - 1)[k]
                == flow_suggestion(m, m.data_flows@[fi], catalog()[rj]);
        assert(flow_pass_to(m, i)[k] == flow_pass_to(m, i - 1)[k]);
    }
}

/// The keys of one model's derivation run, and of its recorded threats, are
/// all recorded among the threats of another model (the merged one).
pub open spec fn keys_absorbed(m: ThreatModel, merged: ThreatModel) -> bool {
    &&& forall|k: int| 0 <= k < derived_suggestions(m).len() ==> match suggestion_key(
        #[trigger] derived_suggestions(m)[k],
    ) {
        Some(key) => key_exists(merged.threats@, key.0, key.1),
        None => true,
    }
    &&& forall|id: Seq<char>, cat: StrideCategory| #![trigger key_exists(m.threats@, id, cat)]
        key_exists(m.threats@, id, cat) ==> key_exists(merged.threats@, id, cat)
}

proof fn lemma_merged_key_recorded(m: ThreatModel, merged: ThreatModel, id: Seq<char>, cat: StrideCategory)
    requires
        keys_absorbed(m, merged),
        key_exists(m.threats@, id, cat) || (exists|k: int|
            0 <= k < derived_suggestions(m).len() && suggestion_key(
                #[trigger] derived_suggestions(m)[k],
            ) == Some((id, cat))),
    ensures
        key_exists(merged.threats@, id, cat),
{
    if !key_exists(m.threats@, id, cat) {
        let k = choose|k: int|
            0 <= k < derived_suggestions(m).len() && suggestion_key(
                #[trigger] derived_suggestions(m)[k],
            ) == Some((id, cat));
        assert(match suggestion_key(derived_suggestions(m)[k]) {
            Some(key) => key_exists(merged.threats@, key.0, key.1),
            None => true,
        });
    }
}

/// Law: idempotence, in its strongest consequence. Take a model, derive its
/// suggestions, and merge them into the model so that every suggested key and
/// every previously recorded key is recorded among the merged model's
/// threats. A second derivation run on the merged model, with the same
/// elements and data flows, suggests nothing at all.
pub proof fn lemma_second_run_derives_nothing(m: ThreatModel, merged: ThreatModel)
    requires
        merged.elements@ == m.elements@,
        merged.data_flows@ == m.data_flows@,
        keys_absorbed(m, merged),
    ensures
        derived_suggestions(merged).len() == 0,
{
    let ne = m.elements@.len() as int;
    let nf = m.data_flows@.len() as int;
    lemma_merged_element_pass_empty(m, merged, ne);
    lemma_merged_flow_pass_empty(m, merged, nf);
    assert(derived_suggestions(merged) =~= Seq::<Suggestion>::empty());
}

proof fn lemma_merged_element_rules_empty(
    m: ThreatModel,
    merged: ThreatModel,
    ei: int,
    j: int,
)
    requires
        merged.elements@ == m.elements@,
        merged.data_flows@ == m.data_flows@,
        keys_absorbed(m, merged),
        0 <= ei < m.elements@.len(),
        0 <= j <= catalog().len(),
    ensures
        element_pass_for(merged, merged.elements@[ei], j) =~= Seq::<Suggestion>::empty(),
    decreases j,
{
    if j > 0 {
        lemma_merged_element_rules_empty(m, merged, ei, j - 1);
        let e = m.elements@[ei];
        if rule_applies(catalog()[j - 1], e.element_type) {
            let cat = catalog()[j - 1].category;
            if key_exists(m.threats@, e.id@, cat) {
                lemma_merged_key_recorded(m, merged, e.id@, cat);
            } else {
                lemma_element_pass_to_complete(m, ei, m.elements@.len() as int, j - 1);
                let k = choose|k: int|
                    0 <= k < element_pass_to(m, m.elements@.len() as int).len()
                        && #[trigger] element_pass_to(m, m.elements@.len() as int)[k]
                        == element_suggestion(e, catalog()[j - 1]);
                assert(derived_suggestions(m)[k] == element_suggestion(e, catalog()[j - 1]));
                assert(suggestion_key(derived_suggestions(m)[k]) == Some((e.id@, cat)));
                lemma_merged_key_recorded(m, merged, e.id@, cat);
            }
            assert(key_exists(merged.threats@, e.id@, cat));
        }
    }
}

proof fn lemma_merged_element_pass_empty(m: ThreatModel, merged: ThreatModel, i: int)
    requires
        merged.elements@ == m.elements@,
        merged.data_flows@ == m.data_flows@,
        keys_absorbed(m, merged),
        0 <= i <= m.elements@.len(),
    ensures
        element_pass_to(merged, i) =~= Seq::<Suggestion>::empty(),
    decreases i,
{
    if i > 0 {
        lemma_merged_element_pass_empty(m, merged, i - 1);
        lemma_merged_element_rules_empty(m, merged, i - 1, catalog().len() as int);
    }
}

proof fn lemma_merged_flow_rules_empty(m: ThreatModel, merged: ThreatModel, fi: int, j: int)
    requires
        merged.elements@ == m.elements@,
        merged.data_flows@ == m.data_flows@,
        keys_absorbed(m, merged),
        0 <= fi < m.data_flows@.len(),
        0 <= j <= catalog().len(),
    ensures
        flow_pass_for(merged, merged.data_flows@[fi], j) =~= Seq::<Suggestion>::empty(),
    decreases j,
{
    if j > 0 {
        lemma_merged_flow_rules_empty(m, merged, fi, j - 1);
        let f = m.data_flows@[fi];
        if catalog()[j - 1].targets_flows {
            let cat = catalog()[j - 1].category;
            if key_exists(m.threats@, f.id@, cat) {
                lemma_merged_key_recorded(m, merged, f.id@, cat);
            } else {
                lemma_flow_pass_to_complete(m, fi, m.data_flows@.len() as int, j - 1);
                let k = choose|k: int|
                    0 <= k < flow_pass_to(m, m.data_flows@.len() as int).len()
                        && #[trigger] flow_pass_to(m, m.data_flows@.len() as int)[k]
                        == flow_suggestion(m, f, catalog()[j - 1]);
                let ne = m.elements@.len() as int;
                assert(derived_suggestions(m)[element_pass_to(m, ne).len() + k]
                    == flow_suggestion(m, f, catalog()[j - 1]));
                assert(suggestion_key(flow_suggestion(m, f, catalog()[j - 1])) == Some(
                    (f.id@, cat),
                ));
                lemma_merged_key_recorded(m, merged, f.id@, cat);
            }
            assert(key_exists(merged.threats@, f.id@, cat));
        }
    }
}

proof fn lemma_merged_flow_pass_empty(m: ThreatModel, merged: ThreatModel, i: int)
    requires
        merged.elements@ == m.elements@,
        merged.data_flows@ == m.data_flows@,
        keys_absorbed(m, merged),
        0 <= i <= m.data_flows@.len(),
    ensures
        flow_pass_to(merged, i) =~= Seq::<Suggestion>::empty(),
    decreases i,
{
    if i > 0 {
        lemma_merged_flow_pass_empty(m, merged, i - 1);
        lemma_merged_flow_rules_empty(m, merged, i - 1, catalog().len() as int);
    }
}

/// The catalog, index by index: categories, targets, applicable element types
/// and base severities of the fourteen rules.
pub proof fn lemma_catalog_facts()
    ensures
        catalog().len() == 14,
        forall|k: int| 0 <= k < 11 ==> !(#[trigger] catalog()[k]).targets_flows,
        forall|k: int| 11 <= k < 14 ==> (#[trigger] catalog()[k]).targets_flows,
        forall|k: int| 0 <= k < 6 ==> (#[trigger] catalog()[k]).applicable =~= seq![
            ElementType::Process,
        ],
        forall|k: int| 6 <= k < 9 ==> (#[trigger] catalog()[k]).applicable =~= seq![
            ElementType::DataStore,
        ],
        forall|k: int| 9 <= k < 11 ==> (#[trigger] catalog()[k]).applicable =~= seq![
            ElementType::ExternalEntity,
        ],
        catalog()[0].category == StrideCategory::Spoofing,
        catalog()[1].category == StrideCategory::Tampering,
        catalog()[2].category == StrideCategory::Repudiation,
        catalog()[3].category == StrideCategory::InformationDisclosure,
        catalog()[4].category == StrideCategory::DenialOfService,
        catalog()[5].category == StrideCategory::ElevationOfPrivilege,
        catalog()[6].category == StrideCategory::Tampering,
        catalog()[7].category == StrideCategory::InformationDisclosure,
        catalog()[8].category == StrideCategory::DenialOfService,
        catalog()[9].category == StrideCategory::Spoofing,
        catalog()[10].category == StrideCategory::Repudiation,
        catalog()[11].category == StrideCategory::Tampering,
        catalog()[12].category == StrideCategory::InformationDisclosure,
        catalog()[13].category == StrideCategory::DenialOfService,
        catalog()[11].severity == Severity::High,
        catalog()[12].severity == Severity::High,
        catalog()[13].severity == Severity::Medium,
{
}

/// Law: per-type rule count. A Process element with no recorded keys gets
/// exactly the six process suggestions, in catalog order: Spoofing, Tampering,
/// Repudiation, Information Disclosure, Denial of Service, Elevation of
/// Privilege.
pub proof fn lemma_process_rule_count(m: ThreatModel, e: Element)
    requires
        e.element_type == ElementType::Process,
        forall|c: StrideCategory| !key_exists(m.threats@, e.id@, c),
    ensures
        element_pass_for(m, e, catalog().len() as int) =~= seq![
            element_suggestion(e, catalog()[0]),
            element_suggestion(e, catalog()[1]),
            element_suggestion(e, catalog()[2]),
            element_suggestion(e, catalog()[3]),
            element_suggestion(e, catalog()[4]),
            element_suggestion(e, catalog()[5]),
        ],
        element_pass_for(m, e, catalog().len() as int).len() == 6,
        element_pass_for(m, e, catalog().len() as int)[0].category == StrideCategory::Spoofing,
        element_pass_for(m, e, catalog().len() as int)[1].category == StrideCategory::Tampering,
        element_pass_for(m, e, catalog().len() as int)[2].category == StrideCategory::Repudiation,
        element_pass_for(m, e, catalog().len() as int)[3].category
            == StrideCategory::InformationDisclosure,
        element_pass_for(m, e, catalog().len() as int)[4].category
            == StrideCategory::DenialOfService,
        element_pass_for(m, e, catalog().len() as int)[5].category
            == StrideCategory::ElevationOfPrivilege,
{
    lemma_catalog_facts();
    assert forall|k: int| 0 <= k < 6 implies rule_applies(
        #[trigger] catalog()[k],
        ElementType::Process,
    ) by {
        assert(catalog()[k].applicable[0] == ElementType::Process);
    }
    assert forall|k: int| 6 <= k < 11 implies !rule_applies(
        #[trigger] catalog()[k],
        ElementType::Process,
    ) by {
        assert(catalog()[k].applicable.len() == 1);
        assert(catalog()[k].applicable[0] != ElementType::Process);
    }
    assert(element_pass_for(m, e, 0) =~= Seq::<Suggestion>::empty());
    assert(element_pass_for(m, e, 1) =~= seq![element_suggestion(e, catalog()[0])]);
    assert(element_pass_for(m, e, 2) =~= seq![
        element_suggestion(e, catalog()[0]),
        element_suggestion(e, catalog()[1]),
    ]);
    assert(element_pass_for(m, e, 3) =~= seq![
        element_suggestion(e, catalog()[0]),
        element_suggestion(e, catalog()[1]),
        element_suggestion(e, catalog()[2]),
    ]);
    assert(element_pass_for(m, e, 4) =~= seq![
        element_suggestion(e, catalog()[0]),
        element_suggestion(e, catalog()[1]),
        element_suggestion(e, catalog()[2]),
        element_suggestion(e, catalog()[3]),
    ]);
    assert(element_pass_for(m, e, 5) =~= seq![
        element_suggestion(e, catalog()[0]),
        element_suggestion(e, catalog()[1]),
        element_suggestion(e, catalog()[2]),
        element_suggestion(e, catalog()[3]),
        element_suggestion(e, catalog()[4]),
    ]);
    assert(element_pass_for(m, e, 6) =~= seq![
        element_suggestion(e, catalog()[0]),
        element_suggestion(e, catalog()[1]),
        element_suggestion(e, catalog()[2]),
        element_suggestion(e, catalog()[3]),
        element_suggestion(e, catalog()[4]),
        element_suggestion(e, catalog()[5]),
    ]);
    assert(element_pass_for(m, e, 7) =~= element_pass_for(m, e, 6));
    assert(element_pass_for(m, e, 8) =~= element_pass_for(m, e, 7));
    assert(element_pass_for(m, e, 9) =~= element_pass_for(m, e, 8));
    assert(element_pass_for(m, e, 10) =~= element_pass_for(m, e, 9));
    assert(element_pass_for(m, e, 11) =~= element_pass_for(m, e, 10));
    assert(element_pass_for(m, e, 12) =~= element_pass_for(m, e, 11));
    assert(element_pass_for(m, e, 13) =~= element_pass_for(m, e, 12));
    assert(element_pass_for(m, e, 14) =~= element_pass_for(m, e, 13));
}

/// Law: per-type rule count. A DataStore element with no recorded keys gets
/// exactly the three data-store suggestions, in catalog order: Tampering,
/// Information Disclosure, Denial of Service.
pub proof fn lemma_data_store_rule_count(m: ThreatModel, e: Element)
    requires
        e.element_type == ElementType::DataStore,
        forall|c: StrideCategory| !key_exists(m.threats@, e.id@, c),
    ensures
        element_pass_for(m, e, catalog().len() as int) =~= seq![
            element_suggestion(e, catalog()[6]),
            element_suggestion(e, catalog()[7]),
            element_suggestion(e, catalog()[8]),
        ],
        element_pass_for(m, e, catalog().len() as int).len() == 3,
        element_pass_for(m, e, catalog().len() as int)[0].category == StrideCategory::Tampering,
        element_pass_for(m, e, catalog().len() as int)[1].category
            == StrideCategory::InformationDisclosure,
        element_pass_for(m, e, catalog().len() as int)[2].category
            == StrideCategory::DenialOfService,
{
    lemma_catalog_facts();
    assert forall|k: int| 6 <= k < 9 implies rule_applies(
        #[trigger] catalog()[k],
        ElementType::DataStore,
    ) by {
        assert(catalog()[k].applicable[0] == ElementType::DataStore);
    }
    assert forall|k: int| (0 <= k < 6 || 9 <= k < 11) implies !rule_applies(
        #[trigger] catalog()[k],
        ElementType::DataStore,
    ) by {
        assert(catalog()[k].applicable.len() == 1);
        assert(catalog()[k].applicable[0] != ElementType::DataStore);
    }
    assert(element_pass_for(m, e, 0) =~= Seq::<Suggestion>::empty());
    assert(element_pass_for(m, e, 1) =~= Seq::<Suggestion>::empty());
    assert(element_pass_for(m, e, 2) =~= element_pass_for(m, e, 1));
    assert(element_pass_for(m, e, 3) =~= element_pass_for(m, e, 2));
    assert(element_pass_for(m, e, 4) =~= element_pass_for(m, e, 3));
    assert(element_pass_for(m, e, 5) =~= element_pass_for(m, e, 4));
    assert(element_pass_for(m, e, 6) =~= element_pass_for(m, e, 5));
    assert(element_pass_for(m, e, 7) =~= seq![element_suggestion(e, catalog()[6])]);
    assert(element_pass_for(m, e, 8) =~= seq![
        element_suggestion(e, catalog()[6]),
        element_suggestion(e, catalog()[7]),
    ]);
    assert(element_pass_for(m, e, 9) =~= seq![
        element_suggestion(e, catalog()[6]),
        element_suggestion(e, catalog()[7]),
        element_suggestion(e, catalog()[8]),
    ]);
    assert(element_pass_for(m, e, 10) =~= element_pass_for(m, e, 9));
    assert(element_pass_for(m, e, 11) =~= element_pass_for(m, e, 10));
    assert(element_pass_for(m, e, 12) =~= element_pass_for(m, e, 11));
    assert(element_pass_for(m, e, 13) =~= element_pass_for(m, e, 12));
    assert(element_pass_for(m, e, 14) =~= element_pass_for(m, e, 13));
}

/// Law: per-type rule count. An ExternalEntity element with no recorded keys
/// gets exactly the two external-entity suggestions, in catalog order:
/// Spoofing, Repudiation.
pub proof fn lemma_external_entity_rule_count(m: ThreatModel, e: Element)
    requires
        e.element_type == ElementType::ExternalEntity,
        forall|c: StrideCategory| !key_exists(m.threats@, e.id@, c),
    ensures
        element_pass_for(m, e, catalog().len() as int) =~= seq![
            element_suggestion(e, catalog()[9]),
            element_suggestion(e, catalog()[10]),
        ],
        element_pass_for(m, e, catalog().len() as int).len() == 2,
        element_pass_for(m, e, catalog().len() as int)[0].category == StrideCategory::Spoofing,
        element_pass_for(m, e, catalog().len() as int)[1].category == StrideCategory::Repudiation,
{
    lemma_catalog_facts();
    assert forall|k: int| 9 <= k < 11 implies rule_applies(
        #[trigger] catalog()[k],
        ElementType::ExternalEntity,
    ) by {
        assert(catalog()[k].applicable[0] == ElementType::ExternalEntity);
    }
    assert forall|k: int| 0 <= k < 9 implies !rule_applies(
        #[trigger] catalog()[k],
        ElementType::ExternalEntity,
    ) by {
        assert(catalog()[k].applicable.len() == 1);
        assert(catalog()[k].applicable[0] != ElementType::ExternalEntity);
    }
    assert(element_pass_for(m, e, 0) =~= Seq::<Suggestion>::empty());
    assert(element_pass_for(m, e, 1) =~= Seq::<Suggestion>::empty());
    assert(element_pass_for(m, e, 2) =~= element_pass_for(m, e, 1));
    assert(element_pass_for(m, e, 3) =~= element_pass_for(m, e, 2));
    assert(element_pass_for(m, e, 4) =~= element_pass_for(m, e, 3));
    assert(element_pass_for(m, e, 5) =~= element_pass_for(m, e, 4));
    assert(element_pass_for(m, e, 6) =~= element_pass_for(m, e, 5));
    assert(element_pass_for(m, e, 7) =~= element_pass_for(m, e, 6));
    assert(element_pass_for(m, e, 8) =~= element_pass_for(m, e, 7));
    assert(element_pass_for(m, e, 9) =~= element_pass_for(m, e, 8));
    assert(element_pass_for(m, e, 10) =~= seq![element_suggestion(e, catalog()[9])]);
    assert(element_pass_for(m, e, 11) =~= seq![
        element_suggestion(e, catalog()[9]),
        element_suggestion(e, catalog()[10]),
    ]);
    assert(element_pass_for(m, e, 12) =~= element_pass_for(m, e, 11));
    assert(element_pass_for(m, e, 13) =~= element_pass_for(m, e, 12));
    assert(element_pass_for(m, e, 14) =~= element_pass_for(m, e, 13));
}

proof fn lemma_flow_pass_skips_element_rules(m: ThreatModel, f: DataFlow, j: int)
    requires
        0 <= j <= 11,
    ensures
        flow_pass_for(m, f, j) =~= Seq::<Suggestion>::empty(),
    decreases j,
{
    lemma_catalog_facts();
    if j > 0 {
        lemma_flow_pass_skips_element_rules(m, f, j - 1);
    }
}

/// Law: per-type rule count. A data flow with no recorded keys gets exactly
/// the three flow suggestions, in catalog order: Tampering, Information
/// Disclosure, Denial of Service.
pub proof fn lemma_flow_rule_count(m: ThreatModel, f: DataFlow)
    requires
        forall|c: StrideCategory| !key_exists(m.threats@, f.id@, c),
    ensures
        flow_pass_for(m, f, catalog().len() as int) =~= seq![
            flow_suggestion(m, f, catalog()[11]),
            flow_suggestion(m, f, catalog()[12]),
            flow_suggestion(m, f, catalog()[13]),
        ],
        flow_pass_for(m, f, catalog().len() as int).len() == 3,
        flow_pass_for(m, f, catalog().len() as int)[0].category == StrideCategory::Tampering,
        flow_pass_for(m, f, catalog().len() as int)[1].category
            == StrideCategory::InformationDisclosure,
        flow_pass_for(m, f, catalog().len() as int)[2].category == StrideCategory::DenialOfService,
{
    lemma_catalog_facts();
    lemma_flow_pass_skips_element_rules(m, f, 11);
    assert(flow_pass_for(m, f, 12) =~= seq![flow_suggestion(m, f, catalog()[11])]);
    assert(flow_pass_for(m, f, 13) =~= seq![
        flow_suggestion(m, f, catalog()[11]),
        flow_suggestion(m, f, catalog()[12]),
    ]);
    assert(flow_pass_for(m, f, 14) =~= seq![
        flow_suggestion(m, f, catalog()[11]),
        flow_suggestion(m, f, catalog()[12]),
        flow_suggestion(m, f, catalog()[13]),
    ]);
}

/// Law: a lone element's derivation is exactly its element pass.
pub proof fn lemma_lone_element_derivation(m: ThreatModel)
    requires
        m.elements@.len() == 1,
        m.data_flows@.len() == 0,
    ensures
        derived_suggestions(m) =~= element_pass_for(m, m.elements@[0], catalog().len() as int),
{
    assert(element_pass_to(m, 0) =~= Seq::<Suggestion>::empty());
    assert(flow_pass_to(m, 0) =~= Seq::<Suggestion>::empty());
    assert(element_pass_to(m, 1) =~= element_pass_for(m, m.elements@[0], catalog().len() as int));
}

/// Law: per-type rule count, at the level of a whole derivation run. A model
/// holding a single element and no data flows derives exactly 6 suggestions
/// when the element is a Process, 3 when it is a DataStore and 2 when it is
/// an ExternalEntity, given that no existing threat records a key for it.
pub proof fn lemma_lone_element_count(m: ThreatModel)
    requires
        m.elements@.len() == 1,
        m.data_flows@.len() == 0,
        forall|c: StrideCategory| !key_exists(m.threats@, m.elements@[0].id@, c),
    ensures
        derived_suggestions(m).len() == (match m.elements@[0].element_type {
            ElementType::Process => 6int,
            ElementType::DataStore => 3int,
            ElementType::ExternalEntity => 2int,
        }),
{
    lemma_lone_element_derivation(m);
    match m.elements@[0].element_type {
        ElementType::Process => lemma_process_rule_count(m, m.elements@[0]),
        ElementType::DataStore => lemma_data_store_rule_count(m, m.elements@[0]),
        ElementType::ExternalEntity => lemma_external_entity_rule_count(m, m.elements@[0]),
    }
}

/// Law: per-type rule count for flows, at the level of a whole derivation
/// run. A model holding a single data flow and no elements derives exactly 3
/// suggestions, given that no existing threat records a key for the flow.
pub proof fn lemma_lone_flow_count(m: ThreatModel)
    requires
        m.elements@.len() == 0,
        m.data_flows@.len() == 1,
        forall|c: StrideCategory| !key_exists(m.threats@, m.data_flows@[0].id@, c),
    ensures
        derived_suggestions(m).len() == 3,
{
    lemma_lone_flow_derivation(m);
    lemma_flow_rule_count(m, m.data_flows@[0]);
}

proof fn lemma_element_pass_for_shape(m: ThreatModel, e: Element, j: int)
    ensures
        forall|k: int| 0 <= k < element_pass_for(m, e, j).len() ==> (#[trigger] element_pass_for(
            m,
            e,
            j,
        )[k]).flow is None,
    decreases j,
{
    if j > 0 {
        lemma_element_pass_for_shape(m, e, j - 1);
        assert forall|k: int| 0 <= k < element_pass_for(m, e, j).len() implies (
        #[trigger] element_pass_for(m, e, j)[k]).flow is None by {
            if k < element_pass_for(m, e, j - 1).len() {
                assert(element_pass_for(m, e, j)[k] == element_pass_for(m, e, j - 1)[k]);
            }
        }
    }
}

proof fn lemma_element_pass_to_shape(m: ThreatModel, i: int)
    ensures
        forall|k: int| 0 <= k < element_pass_to(m, i).len() ==> (#[trigger] element_pass_to(
            m,
            i,
        )[k]).flow is None,
    decreases i,
{
    if i > 0 {
        lemma_element_pass_to_shape(m, i - 1);
        lemma_element_pass_for_shape(m, m.elements@[i - 1], catalog().len() as int);
        assert forall|k: int| 0 <= k < element_pass_to(m, i).len() implies (
        #[trigger] element_pass_to(m, i)[k]).flow is None by {
            if k < element_pass_to(m, i - 1).len() {
                assert(element_pass_to(m, i)[k] == element_pass_to(m, i - 1)[k]);
            } else {
                assert(element_pass_to(m, i)[k] == element_pass_for(
                    m,
                    m.elements@[i - 1],
                    catalog().len() as int,
                )[k - element_pass_to(m, i - 1).len()]);
            }
        }
    }
}

proof fn lemma_flow_pass_for_items(m: ThreatModel, f: DataFlow, j: int)
    requires
        0 <= j <= catalog().len(),
    ensures
        forall|k: int| 0 <= k < flow_pass_for(m, f, j).len() ==> exists|rj: int|
            0 <= rj < j && catalog()[rj].targets_flows && #[trigger] flow_pass_for(m, f, j)[k]
                == flow_suggestion(m, f, catalog()[rj]),
    decreases j,
{
    if j > 0 {
        lemma_flow_pass_for_items(m, f, j - 1);
        assert forall|k: int| 0 <= k < flow_pass_for(m, f, j).len() implies exists|rj: int|
            0 <= rj < j && catalog()[rj].targets_flows && #[trigger] flow_pass_for(m, f, j)[k]
                == flow_suggestion(m, f, catalog()[rj]) by {
            if k < flow_pass_for(m, f, j - 1).len() {
                assert(flow_pass_for(m, f, j)[k] == flow_pass_for(m, f, j - 1)[k]);
                let rj = choose|rj: int|
                    0 <= rj < j - 1 && catalog()[rj].targets_flows && flow_pass_for(
                        m,
                        f,
                        j - 1,
                    )[k] == flow_suggestion(m, f, catalog()[rj]);
                assert(catalog()[rj].targets_flows && flow_pass_for(m, f, j)[k]
                    == flow_suggestion(m, f, catalog()[rj]));
            } else {
                assert(catalog()[j - 1].targets_flows && flow_pass_for(m, f, j)[k]
                    == flow_suggestion(m, f, catalog()[j - 1]));
            }
        }
    }
}

proof fn lemma_flow_pass_to_items(m: ThreatModel, i: int)
    requires
        0 <= i <= m.data_flows@.len(),
    ensures
        forall|k: int| 0 <= k < flow_pass_to(m, i).len() ==> exists|fi: int, rj: int|
            0 <= fi < i && 0 <= rj < catalog().len() && catalog()[rj].targets_flows
                && #[trigger] flow_pass_to(m, i)[k] == flow_suggestion(
                m,
                m.data_flows@[fi],
                catalog()[rj],
            ),
    decreases i,
{
    if i > 0 {
        lemma_flow_pass_to_items(m, i - 1);
        lemma_flow_pass_for_items(m, m.data_flows@[i - 1], catalog().len() as int);
        assert forall|k: int| 0 <= k < flow_pass_to(m, i).len() implies exists|fi: int, rj: int|
            0 <= fi < i && 0 <= rj < catalog().len() && catalog()[rj].targets_flows
                && #[trigger] flow_pass_to(m, i)[k] == flow_suggestion(
                m,
                m.data_flows@[fi],
                catalog()[rj],
            ) by {
            if k < flow_pass_to(m, i - 1).len() {
                assert(flow_pass_to(m, i)[k] == flow_pass_to(m, i - 1)[k]);
                let (fi, rj) = choose|fi: int, rj: int|
                    0 <= fi < i - 1 && 0 <= rj < catalog().len() && catalog()[rj].targets_flows
                        && flow_pass_to(m, i - 1)[k] == flow_suggestion(
                        m,
                        m.data_flows@[fi],
                        catalog()[rj],
                    );
                assert(catalog()[rj].targets_flows && flow_pass_to(m, i)[k] == flow_suggestion(
                    m,
                    m.data_flows@[fi],
                    catalog()[rj],
                ));
            } else {
                let kk = k - flow_pass_to(m, i - 1).len();
                assert(flow_pass_to(m, i)[k] == flow_pass_for(
                    m,
                    m.data_flows@[i - 1],
                    catalog().len() as int,
                )[kk]);
                let rj = choose|rj: int|
                    0 <= rj < catalog().len() && catalog()[rj].targets_flows && flow_pass_for(
                        m,
                        m.data_flows@[i - 1],
                        catalog().len() as int,
                    )[kk] == flow_suggestion(m, m.data_flows@[i - 1], catalog()[rj]);
                assert(catalog()[rj].targets_flows && flow_pass_to(m, i)[k] == flow_suggestion(
                    m,
                    m.data_flows@[i - 1],
                    catalog()[rj],
                ));
            }
        }
    }
}

proof fn lemma_flow_pass_to_has_dos(m: ThreatModel, fi: int, i: int)
    requires
        0 <= fi < i <= m.data_flows@.len(),
        !key_exists(m.threats@, m.data_flows@[fi].id@, StrideCategory::DenialOfService),
    ensures
        exists|k: int| 0 <= k < flow_pass_to(m, i).len() && #[trigger] flow_pass_to(m, i)[k]
            == flow_suggestion(m, m.data_flows@[fi], catalog()[13]),
    decreases i,
{
    lemma_catalog_facts();
    if i == fi + 1 {
        let f = m.data_flows@[fi];
        let pass = flow_pass_for(m, f, catalog().len() as int);
        assert(pass =~= flow_pass_for(m, f, 13) + seq![flow_suggestion(m, f, catalog()[13])]);
        let k = flow_pass_to(m, i - 1).len() + pass.len() - 1;
        assert(flow_pass_to(m, i)[k as int] == pass[pass.len() - 1]);
    } else {
        lemma_flow_pass_to_has_dos(m, fi, i - 1);
        let k = choose|k: int|
            0 <= k < flow_pass_to(m, i - 1).len() && #[trigger] flow_pass_to(m, i - 1)[k]
                == flow_suggestion(m, m.data_flows@[fi], catalog()[13]);
        assert(flow_pass_to(m, i)[k] == flow_pass_to(m, i - 1)[k]);
    }
}

/// Law: boundary escalation, at the level of a whole derivation run. In a
/// model whose flow IDs are unique (as the validator guarantees) and whose
/// threats do not yet record a Denial-of-Service key for the given flow, the
/// run carries a Denial-of-Service suggestion for that flow, and every
/// Denial-of-Service suggestion for it has severity High when the flow's
/// endpoints resolve to different trust-boundary identities and the rule's
/// base severity Medium otherwise.
pub proof fn lemma_escalation_in_derivation(m: ThreatModel, fi: int)
    requires
        0 <= fi < m.data_flows@.len(),
        crate::validate::ids_unique(crate::validate::flow_ids(m)),
        !key_exists(m.threats@, m.data_flows@[fi].id@, StrideCategory::DenialOfService),
    ensures
        exists|k: int|
            0 <= k < derived_suggestions(m).len() && (#[trigger] derived_suggestions(m)[k]).flow
                == Some(m.data_flows@[fi].id@) && derived_suggestions(m)[k].category
                == StrideCategory::DenialOfService,
        forall|k: int|
            0 <= k < derived_suggestions(m).len() && (#[trigger] derived_suggestions(m)[k]).flow
                == Some(m.data_flows@[fi].id@) && derived_suggestions(m)[k].category
                == StrideCategory::DenialOfService ==> derived_suggestions(m)[k].severity == (
            if crossing(m.trust_boundaries@, m.data_flows@[fi].from@, m.data_flows@[fi].to@) {
                Severity::High
            } else {
                Severity::Medium
            }),
{
    lemma_catalog_facts();
    let f = m.data_flows@[fi];
    let ne = m.elements@.len() as int;
    let nf = m.data_flows@.len() as int;
    let epass = element_pass_to(m, ne);
    let fpass = flow_pass_to(m, nf);
    lemma_element_pass_to_shape(m, ne);
    lemma_flow_pass_to_items(m, nf);

    lemma_flow_pass_to_has_dos(m, fi, nf);
    let kd = choose|k: int|
        0 <= k < fpass.len() && fpass[k] == flow_suggestion(m, f, catalog()[13]);
    assert(derived_suggestions(m)[epass.len() + kd] == fpass[kd]);
    assert(flow_suggestion(m, f, catalog()[13]).flow == Some(f.id@));
    assert(flow_suggestion(m, f, catalog()[13]).category == StrideCategory::DenialOfService);

    assert forall|k: int|
        0 <= k < derived_suggestions(m).len() && (#[trigger] derived_suggestions(m)[k]).flow
            == Some(f.id@) && derived_suggestions(m)[k].category
            == StrideCategory::DenialOfService implies derived_suggestions(m)[k].severity == (
    if crossing(m.trust_boundaries@, f.from@, f.to@) {
        Severity::High
    } else {
        Severity::Medium
    }) by {
        if k < epass.len() {
            assert(derived_suggestions(m)[k] == epass[k]);
        } else {
            let kk = k - epass.len();
            assert(derived_suggestions(m)[k] == fpass[kk]);
            let (fj, rj) = choose|fj: int, rj: int|
                0 <= fj < nf && 0 <= rj < catalog().len() && catalog()[rj].targets_flows
                    && fpass[kk] == flow_suggestion(m, m.data_flows@[fj], catalog()[rj]);
            assert(m.data_flows@[fj].id@ == f.id@);
            assert(crate::validate::flow_ids(m)[fj] == m.data_flows@[fj].id@);
            assert(crate::validate::flow_ids(m)[fi] == f.id@);
            assert(fj == fi);
            assert(rj == 13) by {
                assert(catalog()[rj].category == StrideCategory::DenialOfService);
                if rj < 11 {
                    assert(!catalog()[rj].targets_flows);
                }
            }
        }
    }
}

/// Law: a lone data flow's derivation is exactly its flow pass.
pub proof fn lemma_lone_flow_derivation(m: ThreatModel)
    requires
        m.elements@.len() == 0,
        m.data_flows@.len() == 1,
    ensures
        derived_suggestions(m) =~= flow_pass_for(m, m.data_flows@[0], catalog().len() as int),
{
    assert(element_pass_to(m, 0) =~= Seq::<Suggestion>::empty());
    assert(flow_pass_to(m, 0) =~= Seq::<Suggestion>::empty());
    assert(flow_pass_to(m, 1) =~= flow_pass_for(m, m.data_flows@[0], catalog().len() as int));
}

/// Law: boundary escalation. For a data flow whose Denial-of-Service key is
/// not yet recorded, the flow pass carries a Denial-of-Service suggestion, and
/// every Denial-of-Service suggestion of that pass has severity High when the
/// flow's endpoints resolve to different trust-boundary identities (including
/// bound against unbound), and the rule's base severity Medium otherwise.
pub proof fn lemma_boundary_escalation(m: ThreatModel, f: DataFlow)
    requires
        !key_exists(m.threats@, f.id@, StrideCategory::DenialOfService),
    ensures
        exists|i: int|
            0 <= i < flow_pass_for(m, f, catalog().len() as int).len() && (#[trigger] flow_pass_for(
                m,
                f,
                catalog().len() as int,
            )[i]).category == StrideCategory::DenialOfService,
        forall|i: int|
            0 <= i < flow_pass_for(m, f, catalog().len() as int).len() && (#[trigger] flow_pass_for(
                m,
                f,
                catalog().len() as int,
            )[i]).category == StrideCategory::DenialOfService ==> flow_pass_for(
                m,
                f,
                catalog().len() as int,
            )[i].severity == (if crossing(m.trust_boundaries@, f.from@, f.to@) {
                Severity::High
            } else {
                Severity::Medium
            }),
{
    lemma_catalog_facts();
    lemma_flow_pass_skips_element_rules(m, f, 11);
    let ds = flow_pass_for(m, f, catalog().len() as int);
    let prefix = flow_pass_for(m, f, 13);
    assert(ds =~= prefix + seq![flow_suggestion(m, f, catalog()[13])]);
    assert(ds[ds.len() - 1] == flow_suggestion(m, f, catalog()[13]));
    assert(ds[ds.len() - 1].category == StrideCategory::DenialOfService);
    assert forall|i: int|
        0 <= i < ds.len() && (#[trigger] ds[i]).category == StrideCategory::DenialOfService
        implies ds[i].severity == (if crossing(m.trust_boundaries@, f.from@, f.to@) {
        Severity::High
    } else {
        Severity::Medium
    }) by {
        if i < prefix.len() {
            let mid = flow_pass_for(m, f, 12);
            assert(prefix =~= mid + (if catalog()[12].targets_flows && !key_exists(
                m.threats@,
                f.id@,
                catalog()[12].category,
            ) {
                seq![flow_suggestion(m, f, catalog()[12])]
            } else {
                Seq::<Suggestion>::empty()
            }));
            if i < mid.len() {
                assert(mid[i] == flow_suggestion(m, f, catalog()[11]));
                assert(ds[i].category == StrideCategory::Tampering);
            } else {
                assert(prefix[i] == flow_suggestion(m, f, catalog()[12]));
                assert(ds[i].category == StrideCategory::InformationDisclosure);
            }
        } else {
            assert(ds[i] == flow_suggestion(m, f, catalog()[13]));
        }
    }
}

} // verus!
