//! The integrity validator: every loaded model must pass it before any other
//! component trusts the model. It checks schema-version support, ID
//! uniqueness and cross-reference soundness, stopping at the first violation
//! found.

use vstd::prelude::*;

use crate::models::{ThreatModel, Threat, TrustBoundary};
use crate::text;
use crate::text::str_views;

verus! {

/// The mathematical shape of a validation failure.
#[verifier::ext_equal]
pub enum ValidationErrorView {
    UnsupportedVersion { version: Seq<char>, supported: Seq<Seq<char>> },
    DuplicateId { id: Seq<char>, section: Seq<char> },
    InvalidReference { field: Seq<char>, reference: Seq<char>, valid: Seq<Seq<char>> },
}

/// A validation failure: the model must not be trusted by any other component.
#[derive(Debug, Clone)]
pub enum ValidationError {
    /// The document declares a schema version the validator does not support.
    UnsupportedVersion { version: String, supported: Vec<String> },
    /// Two entities in the same section share an ID.
    DuplicateId { id: String, section: String },
    /// A reference field names an ID absent from the target collection.
    InvalidReference { field: String, reference: String, valid: Vec<String> },
}

impl View for ValidationError {
    type V = ValidationErrorView;

    open spec fn view(&self) -> ValidationErrorView {
        match self {
            ValidationError::UnsupportedVersion { version, supported } =>
                ValidationErrorView::UnsupportedVersion {
                    version: version@,
                    supported: str_views(supported@),
                },
            ValidationError::DuplicateId { id, section } => ValidationErrorView::DuplicateId {
                id: id@,
                section: section@,
            },
            ValidationError::InvalidReference { field, reference, valid } =>
                ValidationErrorView::InvalidReference {
                    field: field@,
                    reference: reference@,
                    valid: str_views(valid@),
                },
        }
    }
}

/// What the human-readable description of a failure says.
pub open spec fn message_of(e: ValidationErrorView) -> Seq<char> {
    match e {
        ValidationErrorView::UnsupportedVersion { version, supported } =>
            "Unsupported schema version '"@ + version + "'. Supported versions: "@
                + text::join_with(supported, ", "@),
        ValidationErrorView::DuplicateId { id, section } => "Duplicate ID '"@ + id
            + "' in section '"@ + section + "'"@,
        ValidationErrorView::InvalidReference { field, reference, valid } =>
            "Invalid reference in '"@ + field + "': '"@ + reference
                + "' not found. Valid IDs: "@ + text::join_with(valid, ", "@),
    }
}

impl ValidationError {
    /// A human-readable description of the failure, for callers to surface.
    pub fn message(&self) -> (r: String)
        ensures
            r@ == message_of(self@),
    {
        match self {
            ValidationError::UnsupportedVersion { version, supported } => {
                let mut r = "Unsupported schema version '".to_owned();
                r.append(version.as_str());
                r.append("'. Supported versions: ");
                let list = text::join_strings(supported, ", ");
                r.append(list.as_str());
                r
            },
            ValidationError::DuplicateId { id, section } => {
                let mut r = "Duplicate ID '".to_owned();
                r.append(id.as_str());
                r.append("' in section '");
                r.append(section.as_str());
                r.append("'");
                r
            },
            ValidationError::InvalidReference { field, reference, valid } => {
                let mut r = "Invalid reference in '".to_owned();
                r.append(field.as_str());
                r.append("': '");
                r.append(reference.as_str());
                r.append("' not found. Valid IDs: ");
                let list = text::join_strings(valid, ", ");
                r.append(list.as_str());
                r
            },
        }
    }
}

/// The schema versions the validator accepts.
pub open spec fn supported_versions() -> Seq<Seq<char>> {
    seq!["1.0"@]
}

/// The element IDs of the model, in input order.
pub open spec fn element_ids(m: ThreatModel) -> Seq<Seq<char>> {
    m.elements@.map_values(|e: crate::models::Element| e.id@)
}

/// The data-flow IDs of the model, in input order.
pub open spec fn flow_ids(m: ThreatModel) -> Seq<Seq<char>> {
    m.data_flows@.map_values(|f: crate::models::DataFlow| f.id@)
}

/// No two positions of `ids` hold the same ID.
pub open spec fn ids_unique(ids: Seq<Seq<char>>) -> bool {
    forall|i: int, j: int| 0 <= i < j < ids.len() ==> ids[i] != ids[j]
}

/// The first ID that repeats an earlier one, scanning from position `i` on.
pub open spec fn first_dup_from(ids: Seq<Seq<char>>, i: int) -> Option<Seq<char>>
    decreases ids.len() - i,
{
    if i < 0 || i >= ids.len() {
        None
    } else if ids.take(i).contains(ids[i]) {
        Some(ids[i])
    } else {
        first_dup_from(ids, i + 1)
    }
}

/// The first violation among the data-flow endpoint references, from flow `i` on.
pub open spec fn flow_ref_error_from(m: ThreatModel, i: int) -> Option<ValidationErrorView>
    decreases m.data_flows@.len() - i,
{
    if i < 0 || i >= m.data_flows@.len() {
        None
    } else {
        let f = m.data_flows@[i];
        if !element_ids(m).contains(f.from@) {
            Some(ValidationErrorView::InvalidReference {
                field: "data_flows["@ + f.id@ + "].from"@,
                reference: f.from@,
                valid: element_ids(m),
            })
        } else if !element_ids(m).contains(f.to@) {
            Some(ValidationErrorView::InvalidReference {
                field: "data_flows["@ + f.id@ + "].to"@,
                reference: f.to@,
                valid: element_ids(m),
            })
        } else {
            flow_ref_error_from(m, i + 1)
        }
    }
}

/// The first unresolved ID inside one trust boundary, from position `j` on.
pub open spec fn contained_ref_error_from(m: ThreatModel, b: TrustBoundary, j: int) -> Option<
    ValidationErrorView,
>
    decreases b.contains@.len() - j,
{
    if j < 0 || j >= b.contains@.len() {
        None
    } else if !element_ids(m).contains(b.contains@[j]@) {
        Some(ValidationErrorView::InvalidReference {
            field: "trust_boundaries["@ + b.id@ + "].contains"@,
            reference: b.contains@[j]@,
            valid: element_ids(m),
        })
    } else {
        contained_ref_error_from(m, b, j + 1)
    }
}

/// The first violation among the trust-boundary references, from boundary `i` on.
pub open spec fn boundary_ref_error_from(m: ThreatModel, i: int) -> Option<ValidationErrorView>
    decreases m.trust_boundaries@.len() - i,
{
    if i < 0 || i >= m.trust_boundaries@.len() {
        None
    } else {
        match contained_ref_error_from(m, m.trust_boundaries@[i], 0) {
            Some(e) => Some(e),
            None => boundary_ref_error_from(m, i + 1),
        }
    }
}

/// The first violation among the threat references, from threat `i` on.
pub open spec fn threat_ref_error_from(m: ThreatModel, i: int) -> Option<ValidationErrorView>
    decreases m.threats@.len() - i,
{
    if i < 0 || i >= m.threats@.len() {
        None
    } else {
        let t = m.threats@[i];
        if t.element is Some && !element_ids(m).contains(t.element->0@) {
            Some(ValidationErrorView::InvalidReference {
                field: "threats["@ + t.id@ + "].element"@,
                reference: t.element->0@,
                valid: element_ids(m),
            })
        } else if t.flow is Some && !flow_ids(m).contains(t.flow->0@) {
            Some(ValidationErrorView::InvalidReference {
                field: "threats["@ + t.id@ + "].flow"@,
                reference: t.flow->0@,
                valid: flow_ids(m),
            })
        } else {
            threat_ref_error_from(m, i + 1)
        }
    }
}

/// What the reference check decides: the first violation, in checking order
/// (duplicate element IDs, duplicate flow IDs, flow endpoints, boundary
/// members, threat references), or success.
pub open spec fn references_check(m: ThreatModel) -> Result<(), ValidationErrorView> {
    if first_dup_from(element_ids(m), 0) is Some {
        Err(ValidationErrorView::DuplicateId {
            id: first_dup_from(element_ids(m), 0)->0,
            section: "elements"@,
        })
    } else if first_dup_from(flow_ids(m), 0) is Some {
        Err(ValidationErrorView::DuplicateId {
            id: first_dup_from(flow_ids(m), 0)->0,
            section: "data_flows"@,
        })
    } else if flow_ref_error_from(m, 0) is Some {
        Err(flow_ref_error_from(m, 0)->0)
    } else if boundary_ref_error_from(m, 0) is Some {
        Err(boundary_ref_error_from(m, 0)->0)
    } else if threat_ref_error_from(m, 0) is Some {
        Err(threat_ref_error_from(m, 0)->0)
    } else {
        Ok(())
    }
}

/// Every data-flow endpoint from flow `i` on resolves to an element ID.
pub open spec fn flows_resolve_from(m: ThreatModel, i: int) -> bool {
    forall|j: int| #![trigger m.data_flows@[j]] i <= j < m.data_flows@.len() ==> {
        &&& element_ids(m).contains(m.data_flows@[j].from@)
        &&& element_ids(m).contains(m.data_flows@[j].to@)
    }
}

/// Every data-flow endpoint resolves to an element ID.
pub open spec fn flows_resolve(m: ThreatModel) -> bool {
    flows_resolve_from(m, 0)
}

/// Every ID contained in one trust boundary from position `j` on resolves.
pub open spec fn contained_resolve_from(m: ThreatModel, b: TrustBoundary, j: int) -> bool {
    forall|k: int| #![trigger b.contains@[k]] j <= k < b.contains@.len() ==> element_ids(
        m,
    ).contains(b.contains@[k]@)
}

/// Every ID contained in a trust boundary from boundary `i` on resolves.
pub open spec fn boundaries_resolve_from(m: ThreatModel, i: int) -> bool {
    forall|p: int| #![trigger m.trust_boundaries@[p]] i <= p < m.trust_boundaries@.len()
        ==> contained_resolve_from(m, m.trust_boundaries@[p], 0)
}

/// Every ID contained in a trust boundary resolves to an element ID.
pub open spec fn boundaries_resolve(m: ThreatModel) -> bool {
    boundaries_resolve_from(m, 0)
}

/// Every threat reference from threat `i` on resolves against its target collection.
pub open spec fn threats_resolve_from(m: ThreatModel, i: int) -> bool {
    forall|j: int| #![trigger m.threats@[j]] i <= j < m.threats@.len() ==> {
        &&& (m.threats@[j].element is Some ==> element_ids(m).contains(m.threats@[j].element->0@))
        &&& (m.threats@[j].flow is Some ==> flow_ids(m).contains(m.threats@[j].flow->0@))
    }
}

/// Every threat reference resolves against its target collection.
pub open spec fn threats_resolve(m: ThreatModel) -> bool {
    threats_resolve_from(m, 0)
}

/// Structural soundness of the model graph apart from its version: unique IDs
/// per section and sound cross-references.
pub open spec fn references_valid(m: ThreatModel) -> bool {
    &&& ids_unique(element_ids(m))
    &&& ids_unique(flow_ids(m))
    &&& flows_resolve(m)
    &&& boundaries_resolve(m)
    &&& threats_resolve(m)
}

/// A model the validator accepts: supported version and sound references.
pub open spec fn model_valid(m: ThreatModel) -> bool {
    &&& m.version@ == "1.0"@
    &&& references_valid(m)
}

/// What validation decides: the version gate first, then the reference check.
pub open spec fn validation_check(m: ThreatModel) -> Result<(), ValidationErrorView> {
    if m.version@ != "1.0"@ {
        Err(ValidationErrorView::UnsupportedVersion {
            version: m.version@,
            supported: supported_versions(),
        })
    } else {
        references_check(m)
    }
}

proof fn lemma_first_dup_complete(ids: Seq<Seq<char>>, i: int)
    requires
        0 <= i <= ids.len(),
    ensures
        first_dup_from(ids, i) is None <==> (forall|p: int, q: int|
            0 <= p < q < ids.len() && i <= q ==> ids[p] != ids[q]),
    decreases ids.len() - i,
{
    if i < ids.len() {
        lemma_first_dup_complete(ids, i + 1);
        if ids.take(i).contains(ids[i]) {
            let p = choose|p: int| 0 <= p < i && ids.take(i)[p] == ids[i];
            assert(ids[p] == ids[i]);
        } else {
            assert forall|p: int| 0 <= p < i implies ids[p] != ids[i] by {
                assert(ids.take(i)[p] == ids[p]);
            }
        }
    }
}

proof fn lemma_flow_refs_complete(m: ThreatModel, i: int)
    requires
        0 <= i <= m.data_flows@.len(),
    ensures
        flow_ref_error_from(m, i) is None <==> flows_resolve_from(m, i),
    decreases m.data_flows@.len() - i,
{
    if i < m.data_flows@.len() {
        lemma_flow_refs_complete(m, i + 1);
        let f = m.data_flows@[i];
        if element_ids(m).contains(f.from@) && element_ids(m).contains(f.to@) {
            assert(flow_ref_error_from(m, i) == flow_ref_error_from(m, i + 1));
            if flows_resolve_from(m, i + 1) {
                assert forall|j: int| #![trigger m.data_flows@[j]]
                    i <= j < m.data_flows@.len() implies {
                    &&& element_ids(m).contains(m.data_flows@[j].from@)
                    &&& element_ids(m).contains(m.data_flows@[j].to@)
                } by {}
            } else {
                assert(!flows_resolve_from(m, i)) by {
                    if flows_resolve_from(m, i) {
                        assert forall|j: int| #![trigger m.data_flows@[j]]
                            i + 1 <= j < m.data_flows@.len() implies {
                            &&& element_ids(m).contains(m.data_flows@[j].from@)
                            &&& element_ids(m).contains(m.data_flows@[j].to@)
                        } by {}
                    }
                }
            }
        } else {
            assert(flow_ref_error_from(m, i) is Some);
            assert(!flows_resolve_from(m, i)) by {
                if flows_resolve_from(m, i) {
                    assert(element_ids(m).contains(m.data_flows@[i].from@) && element_ids(
                        m,
                    ).contains(m.data_flows@[i].to@));
                }
            }
        }
    }
}

proof fn lemma_contained_refs_complete(m: ThreatModel, b: TrustBoundary, j: int)
    requires
        0 <= j <= b.contains@.len(),
    ensures
        contained_ref_error_from(m, b, j) is None <==> contained_resolve_from(m, b, j),
    decreases b.contains@.len() - j,
{
    if j < b.contains@.len() {
        lemma_contained_refs_complete(m, b, j + 1);
        if element_ids(m).contains(b.contains@[j]@) {
            if contained_resolve_from(m, b, j + 1) {
                assert forall|k: int| #![trigger b.contains@[k]]
                    j <= k < b.contains@.len() implies element_ids(m).contains(
                    b.contains@[k]@,
                ) by {}
            } else {
                assert(!contained_resolve_from(m, b, j)) by {
                    if contained_resolve_from(m, b, j) {
                        assert forall|k: int| #![trigger b.contains@[k]]
                            j + 1 <= k < b.contains@.len() implies element_ids(m).contains(
                            b.contains@[k]@,
                        ) by {}
                    }
                }
            }
        } else {
            assert(!contained_resolve_from(m, b, j)) by {
                if contained_resolve_from(m, b, j) {
                    assert(element_ids(m).contains(b.contains@[j]@));
                }
            }
        }
    }
}

proof fn lemma_boundary_refs_complete(m: ThreatModel, i: int)
    requires
        0 <= i <= m.trust_boundaries@.len(),
    ensures
        boundary_ref_error_from(m, i) is None <==> boundaries_resolve_from(m, i),
    decreases m.trust_boundaries@.len() - i,
{
    if i < m.trust_boundaries@.len() {
        let b = m.trust_boundaries@[i];
        lemma_contained_refs_complete(m, b, 0);
        lemma_boundary_refs_complete(m, i + 1);
        if contained_ref_error_from(m, b, 0) is None {
            if boundaries_resolve_from(m, i + 1) {
                assert forall|p: int| #![trigger m.trust_boundaries@[p]]
                    i <= p < m.trust_boundaries@.len() implies contained_resolve_from(
                    m,
                    m.trust_boundaries@[p],
                    0,
                ) by {}
            } else {
                assert(!boundaries_resolve_from(m, i)) by {
                    if boundaries_resolve_from(m, i) {
                        assert forall|p: int| #![trigger m.trust_boundaries@[p]]
                            i + 1 <= p < m.trust_boundaries@.len() implies contained_resolve_from(
                            m,
                            m.trust_boundaries@[p],
                            0,
                        ) by {}
                    }
                }
            }
        } else {
            assert(!boundaries_resolve_from(m, i)) by {
                if boundaries_resolve_from(m, i) {
                    assert(contained_resolve_from(m, m.trust_boundaries@[i], 0));
                }
            }
        }
    }
}

proof fn lemma_threat_refs_complete(m: ThreatModel, i: int)
    requires
        0 <= i <= m.threats@.len(),
    ensures
        threat_ref_error_from(m, i) is None <==> threats_resolve_from(m, i),
    decreases m.threats@.len() - i,
{
    if i < m.threats@.len() {
        lemma_threat_refs_complete(m, i + 1);
        let t = m.threats@[i];
        let head_ok = (t.element is Some ==> element_ids(m).contains(t.element->0@)) && (
        t.flow is Some ==> flow_ids(m).contains(t.flow->0@));
        if head_ok {
            assert(threat_ref_error_from(m, i) == threat_ref_error_from(m, i + 1));
            if threats_resolve_from(m, i + 1) {
                assert forall|j: int| #![trigger m.threats@[j]]
                    i <= j < m.threats@.len() implies {
                    &&& (m.threats@[j].element is Some ==> element_ids(m).contains(
                        m.threats@[j].element->0@,
                    ))
                    &&& (m.threats@[j].flow is Some ==> flow_ids(m).contains(
                        m.threats@[j].flow->0@,
                    ))
                } by {}
            } else {
                assert(!threats_resolve_from(m, i)) by {
                    if threats_resolve_from(m, i) {
                        assert forall|j: int| #![trigger m.threats@[j]]
                            i + 1 <= j < m.threats@.len() implies {
                            &&& (m.threats@[j].element is Some ==> element_ids(m).contains(
                                m.threats@[j].element->0@,
                            ))
                            &&& (m.threats@[j].flow is Some ==> flow_ids(m).contains(
                                m.threats@[j].flow->0@,
                            ))
                        } by {}
                    }
                }
            }
        } else {
            assert(threat_ref_error_from(m, i) is Some);
            assert(!threats_resolve_from(m, i)) by {
                if threats_resolve_from(m, i) {
                    assert((m.threats@[i].element is Some ==> element_ids(m).contains(
                        m.threats@[i].element->0@,
                    )) && (m.threats@[i].flow is Some ==> flow_ids(m).contains(
                        m.threats@[i].flow->0@,
                    )));
                }
            }
        }
    }
}

/// The reference check succeeds exactly on models whose references are sound.
pub proof fn lemma_references_check_complete(m: ThreatModel)
    ensures
        references_check(m) is Ok <==> references_valid(m),
{
    lemma_first_dup_complete(element_ids(m), 0);
    lemma_first_dup_complete(flow_ids(m), 0);
    lemma_flow_refs_complete(m, 0);
    lemma_boundary_refs_complete(m, 0);
    lemma_threat_refs_complete(m, 0);
}

/// The element IDs of the model, as owned strings in input order.
fn collect_element_ids(m: &ThreatModel) -> (v: Vec<String>)
    ensures
        str_views(v@) == element_ids(*m),
{
    let mut v: Vec<String> = Vec::new();
    let n = m.elements.len();
    let mut i: usize = 0;
    while i < n
        invariant
            n == m.elements@.len(),
            i <= n,
            v@.len() == i,
            forall|k: int| 0 <= k < i ==> v@[k]@ == m.elements@[k].id@,
        decreases n - i,
    {
        v.push(m.elements[i].id.clone());
        i = i + 1;
    }
    proof {
        assert forall|k: int| 0 <= k < n implies str_views(v@)[k] == element_ids(*m)[k] by {
            assert(str_views(v@)[k] == v@[k]@);
        }
        assert(str_views(v@) =~= element_ids(*m));
    }
    v
}

/// The data-flow IDs of the model, as owned strings in input order.
fn collect_flow_ids(m: &ThreatModel) -> (v: Vec<String>)
    ensures
        str_views(v@) == flow_ids(*m),
{
    let mut v: Vec<String> = Vec::new();
    let n = m.data_flows.len();
    let mut i: usize = 0;
    while i < n
        invariant
            n == m.data_flows@.len(),
            i <= n,
            v@.len() == i,
            forall|k: int| 0 <= k < i ==> v@[k]@ == m.data_flows@[k].id@,
        decreases n - i,
    {
        v.push(m.data_flows[i].id.clone());
        i = i + 1;
    }
    proof {
        assert forall|k: int| 0 <= k < n implies str_views(v@)[k] == flow_ids(*m)[k] by {
            assert(str_views(v@)[k] == v@[k]@);
        }
        assert(str_views(v@) =~= flow_ids(*m));
    }
    v
}

/// The first ID in `ids` that repeats an earlier one, scanning in order.
fn find_duplicate(ids: &Vec<String>) -> (r: Option<String>)
    ensures
        match r {
            Some(id) => first_dup_from(str_views(ids@), 0) == Some(id@),
            None => first_dup_from(str_views(ids@), 0) is None,
        },
{
    let ghost sv = str_views(ids@);
    let mut seen: Vec<String> = Vec::new();
    let n = ids.len();
    let mut i: usize = 0;
    while i < n
        invariant
            n == ids@.len(),
            i <= n,
            sv == str_views(ids@),
            seen@.len() == i,
            forall|k: int| 0 <= k < i ==> seen@[k]@ == ids@[k]@,
            first_dup_from(sv, 0) == first_dup_from(sv, i as int),
        decreases n - i,
    {
        proof {
            assert forall|k: int| 0 <= k < i implies str_views(seen@)[k] == sv.take(i as int)[k] by {
                assert(str_views(seen@)[k] == seen@[k]@);
                assert(sv.take(i as int)[k] == sv[k]);
                assert(sv[k] == ids@[k]@);
            }
            assert(str_views(seen@) =~= sv.take(i as int));
            assert(sv[i as int] == ids@[i as int]@);
        }
        if crate::text::contains_string(&seen, ids[i].as_str()) {
            proof {
                assert(sv.take(i as int).contains(sv[i as int]));
                assert(first_dup_from(sv, i as int) == Some(sv[i as int]));
            }
            return Some(ids[i].clone());
        }
        seen.push(ids[i].clone());
        i = i + 1;
    }
    None
}

/// Check that the schema version is supported; currently exactly `1.0`.
pub fn validate_version(version: &str) -> (r: Result<(), ValidationError>)
    ensures
        r is Ok <==> version@ == "1.0"@,
        r matches Err(e) ==> e@ == (ValidationErrorView::UnsupportedVersion {
            version: version@,
            supported: supported_versions(),
        }),
{
    if crate::text::str_eq(version, "1.0") {
        Ok(())
    } else {
        let e = ValidationError::UnsupportedVersion {
            version: version.to_owned(),
            supported: vec!["1.0".to_owned()],
        };
        proof {
            assert(e@->supported =~= supported_versions());
        }
        Err(e)
    }
}

/// Check ID uniqueness and cross-reference soundness, stopping at the first
/// violation: duplicate element IDs, duplicate flow IDs, then flow endpoints,
/// trust-boundary members and threat references, each in input order.
pub fn validate_references(model: &ThreatModel) -> (r: Result<(), ValidationError>)
    ensures
        r is Ok <==> references_check(*model) is Ok,
        r is Ok <==> references_valid(*model),
        r matches Err(e) ==> references_check(*model) == Err::<(), ValidationErrorView>(e@),
{
    proof {
        lemma_references_check_complete(*model);
    }
    let element_id_vec = collect_element_ids(model);
    let flow_id_vec = collect_flow_ids(model);

    if let Some(id) = find_duplicate(&element_id_vec) {
        let e = ValidationError::DuplicateId { id, section: "elements".to_owned() };
        proof {
            assert(references_check(*model) == Err::<(), ValidationErrorView>(e@));
        }
        return Err(e);
    }
    if let Some(id) = find_duplicate(&flow_id_vec) {
        let e = ValidationError::DuplicateId { id, section: "data_flows".to_owned() };
        proof {
            assert(references_check(*model) == Err::<(), ValidationErrorView>(e@));
        }
        return Err(e);
    }

    let nf = model.data_flows.len();
    let mut i: usize = 0;
    while i < nf
        invariant
            nf == model.data_flows@.len(),
            i <= nf,
            str_views(element_id_vec@) == element_ids(*model),
            first_dup_from(element_ids(*model), 0) is None,
            first_dup_from(flow_ids(*model), 0) is None,
            flow_ref_error_from(*model, 0) == flow_ref_error_from(*model, i as int),
        decreases nf - i,
    {
        let f = &model.data_flows[i];
        if !crate::text::contains_string(&element_id_vec, f.from.as_str()) {
            let mut field = "data_flows[".to_owned();
            field.append(f.id.as_str());
            field.append("].from");
            let e = ValidationError::InvalidReference {
                field,
                reference: f.from.clone(),
                valid: collect_element_ids(model),
            };
            proof {
                assert(e@ =~= flow_ref_error_from(*model, i as int)->0);
            }
            return Err(e);
        }
        if !crate::text::contains_string(&element_id_vec, f.to.as_str()) {
            let mut field = "data_flows[".to_owned();
            field.append(f.id.as_str());
            field.append("].to");
            let e = ValidationError::InvalidReference {
                field,
                reference: f.to.clone(),
                valid: collect_element_ids(model),
            };
            proof {
                assert(e@ =~= flow_ref_error_from(*model, i as int)->0);
            }
            return Err(e);
        }
        i = i + 1;
    }

    let nb = model.trust_boundaries.len();
    let mut bi: usize = 0;
    while bi < nb
        invariant
            nb == model.trust_boundaries@.len(),
            bi <= nb,
            str_views(element_id_vec@) == element_ids(*model),
            first_dup_from(element_ids(*model), 0) is None,
            first_dup_from(flow_ids(*model), 0) is None,
            flow_ref_error_from(*model, 0) is None,
            boundary_ref_error_from(*model, 0) == boundary_ref_error_from(*model, bi as int),
        decreases nb - bi,
    {
        let b = &model.trust_boundaries[bi];
        let nc = b.contains.len();
        let mut ci: usize = 0;
        while ci < nc
            invariant
                nb == model.trust_boundaries@.len(),
                bi < nb,
                b == &model.trust_boundaries@[bi as int],
                nc == b.contains@.len(),
                ci <= nc,
                str_views(element_id_vec@) == element_ids(*model),
                first_dup_from(element_ids(*model), 0) is None,
                first_dup_from(flow_ids(*model), 0) is None,
                flow_ref_error_from(*model, 0) is None,
                boundary_ref_error_from(*model, 0) == boundary_ref_error_from(*model, bi as int),
                contained_ref_error_from(*model, *b, 0) == contained_ref_error_from(
                    *model,
                    *b,
                    ci as int,
                ),
            decreases nc - ci,
        {
            if !crate::text::contains_string(&element_id_vec, b.contains[ci].as_str()) {
                let mut field = "trust_boundaries[".to_owned();
                field.append(b.id.as_str());
                field.append("].contains");
                let e = ValidationError::InvalidReference {
                    field,
                    reference: b.contains[ci].clone(),
                    valid: collect_element_ids(model),
                };
                proof {
                    assert(contained_ref_error_from(*model, *b, ci as int) is Some);
                    assert(e@ =~= contained_ref_error_from(*model, *b, ci as int)->0);
                    assert(boundary_ref_error_from(*model, bi as int) == Some(e@));
                }
                return Err(e);
            }
            ci = ci + 1;
        }
        proof {
            assert(contained_ref_error_from(*model, *b, nc as int) is None);
        }
        bi = bi + 1;
    }

    let nt = model.threats.len();
    let mut ti: usize = 0;
    while ti < nt
        invariant
            nt == model.threats@.len(),
            ti <= nt,
            str_views(element_id_vec@) == element_ids(*model),
            str_views(flow_id_vec@) == flow_ids(*model),
            first_dup_from(element_ids(*model), 0) is None,
            first_dup_from(flow_ids(*model), 0) is None,
            flow_ref_error_from(*model, 0) is None,
            boundary_ref_error_from(*model, 0) is None,
            threat_ref_error_from(*model, 0) == threat_ref_error_from(*model, ti as int),
        decreases nt - ti,
    {
        let t = &model.threats[ti];
        if let Some(el) = &t.element {
            if !crate::text::contains_string(&element_id_vec, el.as_str()) {
                let mut field = "threats[".to_owned();
                field.append(t.id.as_str());
                field.append("].element");
                let e = ValidationError::InvalidReference {
                    field,
                    reference: el.clone(),
                    valid: collect_element_ids(model),
                };
                proof {
                    assert(e@ =~= threat_ref_error_from(*model, ti as int)->0);
                }
                return Err(e);
            }
        }
        if let Some(fl) = &t.flow {
            if !crate::text::contains_string(&flow_id_vec, fl.as_str()) {
                let mut field = "threats[".to_owned();
                field.append(t.id.as_str());
                field.append("].flow");
                let e = ValidationError::InvalidReference {
                    field,
                    reference: fl.clone(),
                    valid: collect_flow_ids(model),
                };
                proof {
                    assert(e@ =~= threat_ref_error_from(*model, ti as int)->0);
                }
                return Err(e);
            }
        }
        ti = ti + 1;
    }

    Ok(())
}

/// Validate a loaded model: schema version first, then ID uniqueness and
/// reference soundness. On success the model may be trusted by the deriver;
/// the validator never mutates it.
pub fn validate(model: &ThreatModel) -> (r: Result<(), ValidationError>)
    ensures
        r is Ok <==> model_valid(*model),
        r matches Err(e) ==> validation_check(*model) == Err::<(), ValidationErrorView>(e@),
{
    proof {
        lemma_references_check_complete(*model);
    }
    let () = match validate_version(model.version.as_str()) {
        Ok(()) => (),
        Err(e) => {
            return Err(e);
        },
    };
    validate_references(model)
}

} // verus!
