//! The model graph: the in-memory representation of a threat-model document.
//!
//! All entities are immutable value data once constructed. Entities reference
//! each other only by ID string, so the graph is trivially serializable and
//! has no ownership cycles.

use vstd::prelude::*;

use crate::text;

verus! {

/// A calendar date held as plain fields, as the metadata stores it.
#[derive(Debug, Clone, Copy, PartialEq, Eq, Structural)]
pub struct Date {
    pub year: i32,
    /// 1 through 12.
    pub month: u32,
    /// 1 through 31.
    pub day: u32,
}

impl Date {
    /// The month and day fields stay on the calendar.
    pub open spec fn wf(self) -> bool {
        &&& 1 <= self.month <= 12
        &&& 1 <= self.day <= 31
    }
}

/// Relies on `chrono::Local::now` and `chrono::Datelike`: the current local
/// calendar date; `month` ranges over 1..=12 and `day` over 1..=31. The value
/// depends on the clock, so nothing further is promised of it.
#[verifier::external_body]
fn current_local_date() -> (d: Date)
    ensures
        d.wf(),
{
    let today = chrono::Local::now().date_naive();
    Date {
        year: chrono::Datelike::year(&today),
        month: chrono::Datelike::month(&today),
        day: chrono::Datelike::day(&today),
    }
}

/// Document metadata.
#[derive(Debug, Clone)]
pub struct Metadata {
    pub title: String,
    pub author: String,
    pub created: Date,
    pub modified: Date,
    pub description: String,
}

/// DFD element types.
#[derive(Debug, Clone, Copy, PartialEq, Eq, Structural)]
pub enum ElementType {
    Process,
    DataStore,
    ExternalEntity,
}

/// A node of the data-flow diagram: a process, data store, or external entity.
#[derive(Debug, Clone)]
pub struct Element {
    pub id: String,
    pub element_type: ElementType,
    pub name: String,
    pub trust_zone: String,
    pub icon: Option<String>,
    pub description: String,
    pub technologies: Vec<String>,
    pub stores: Option<Vec<String>>,
    pub encryption: Option<String>,
}

/// A directed edge between two elements, referenced by their IDs.
#[derive(Debug, Clone)]
pub struct DataFlow {
    pub id: String,
    pub from: String,
    pub to: String,
    pub protocol: String,
    pub data: Vec<String>,
    pub authenticated: bool,
}

/// A named grouping of element IDs sharing a trust level.
#[derive(Debug, Clone)]
pub struct TrustBoundary {
    pub id: String,
    pub name: String,
    pub contains: Vec<String>,
}

/// STRIDE threat categories.
#[derive(Debug, Clone, Copy, PartialEq, Eq, Structural)]
pub enum StrideCategory {
    Spoofing,
    Tampering,
    Repudiation,
    InformationDisclosure,
    DenialOfService,
    ElevationOfPrivilege,
}

impl ElementType {
    /// The name of this element type, as a reader of the model sees it.
    pub open spec fn label_spec(self) -> Seq<char> {
        match self {
            ElementType::Process => "Process"@,
            ElementType::DataStore => "DataStore"@,
            ElementType::ExternalEntity => "ExternalEntity"@,
        }
    }

    /// The name of this element type.
    pub fn label(self) -> (r: &'static str)
        ensures
            r@ == self.label_spec(),
    {
        match self {
            ElementType::Process => "Process",
            ElementType::DataStore => "DataStore",
            ElementType::ExternalEntity => "ExternalEntity",
        }
    }
}

/// Severity of a threat, totally ordered: Info < Low < Medium < High < Critical.
#[derive(Debug, Clone, Copy, PartialEq, Eq, Structural)]
pub enum Severity {
    Critical,
    High,
    Medium,
    Low,
    Info,
}

impl Severity {
    /// Position of this severity on the ordered ladder, lowest first.
    pub open spec fn rank(self) -> int {
        match self {
            Severity::Info => 0,
            Severity::Low => 1,
            Severity::Medium => 2,
            Severity::High => 3,
            Severity::Critical => 4,
        }
    }

    /// The name of this severity, as a reader of the model sees it.
    pub open spec fn label_spec(self) -> Seq<char> {
        match self {
            Severity::Critical => "Critical"@,
            Severity::High => "High"@,
            Severity::Medium => "Medium"@,
            Severity::Low => "Low"@,
            Severity::Info => "Info"@,
        }
    }

    /// The name of this severity.
    pub fn label(self) -> (r: &'static str)
        ensures
            r@ == self.label_spec(),
    {
        match self {
            Severity::Critical => "Critical",
            Severity::High => "High",
            Severity::Medium => "Medium",
            Severity::Low => "Low",
            Severity::Info => "Info",
        }
    }
}

impl StrideCategory {
    /// The name of this category, as a reader of the model sees it.
    pub open spec fn label_spec(self) -> Seq<char> {
        match self {
            StrideCategory::Spoofing => "Spoofing"@,
            StrideCategory::Tampering => "Tampering"@,
            StrideCategory::Repudiation => "Repudiation"@,
            StrideCategory::InformationDisclosure => "InformationDisclosure"@,
            StrideCategory::DenialOfService => "DenialOfService"@,
            StrideCategory::ElevationOfPrivilege => "ElevationOfPrivilege"@,
        }
    }

    /// The name of this category.
    pub fn label(self) -> (r: &'static str)
        ensures
            r@ == self.label_spec(),
    {
        match self {
            StrideCategory::Spoofing => "Spoofing",
            StrideCategory::Tampering => "Tampering",
            StrideCategory::Repudiation => "Repudiation",
            StrideCategory::InformationDisclosure => "InformationDisclosure",
            StrideCategory::DenialOfService => "DenialOfService",
            StrideCategory::ElevationOfPrivilege => "ElevationOfPrivilege",
        }
    }
}

/// Progress of a mitigation.
#[derive(Debug, Clone, Copy, PartialEq, Eq, Structural)]
pub enum MitigationStatus {
    NotStarted,
    InProgress,
    Mitigated,
    Accepted,
    Transferred,
}

impl MitigationStatus {
    /// The name of this status, as a reader of the model sees it.
    pub open spec fn label_spec(self) -> Seq<char> {
        match self {
            MitigationStatus::NotStarted => "NotStarted"@,
            MitigationStatus::InProgress => "InProgress"@,
            MitigationStatus::Mitigated => "Mitigated"@,
            MitigationStatus::Accepted => "Accepted"@,
            MitigationStatus::Transferred => "Transferred"@,
        }
    }

    /// The name of this status.
    pub fn label(self) -> (r: &'static str)
        ensures
            r@ == self.label_spec(),
    {
        match self {
            MitigationStatus::NotStarted => "NotStarted",
            MitigationStatus::InProgress => "InProgress",
            MitigationStatus::Mitigated => "Mitigated",
            MitigationStatus::Accepted => "Accepted",
            MitigationStatus::Transferred => "Transferred",
        }
    }
}

/// A mitigation recorded against a threat.
#[derive(Debug, Clone)]
pub struct Mitigation {
    pub status: MitigationStatus,
    pub description: String,
}

/// A STRIDE finding, either user-authored or engine-suggested. It references
/// at most one element or one data flow by ID.
#[derive(Debug, Clone)]
pub struct Threat {
    pub id: String,
    pub title: String,
    pub category: StrideCategory,
    pub element: Option<String>,
    pub flow: Option<String>,
    pub severity: Severity,
    pub description: String,
    pub mitigation: Option<Mitigation>,
}

/// A diagram reference: where the layout of one view of the model is kept.
#[derive(Debug, Clone)]
pub struct Diagram {
    pub id: String,
    pub name: String,
    pub layout_file: String,
}

/// Root threat model document.
#[derive(Debug, Clone)]
pub struct ThreatModel {
    pub version: String,
    pub metadata: Metadata,
    pub elements: Vec<Element>,
    pub data_flows: Vec<DataFlow>,
    pub trust_boundaries: Vec<TrustBoundary>,
    pub threats: Vec<Threat>,
    pub diagrams: Vec<Diagram>,
}

impl ThreatModel {
    /// A fresh model: current schema version, the given title and author,
    /// today's date, no entities, and a single default diagram reference.
    pub fn new(title: &str, author: &str) -> (m: ThreatModel)
        ensures
            m.version@ == "1.0"@,
            m.metadata.title@ == title@,
            m.metadata.author@ == author@,
            m.metadata.created.wf(),
            m.metadata.modified == m.metadata.created,
            m.metadata.description@ == Seq::<char>::empty(),
            m.elements@.len() == 0,
            m.data_flows@.len() == 0,
            m.trust_boundaries@.len() == 0,
            m.threats@.len() == 0,
            m.diagrams@.len() == 1,
            m.diagrams@[0].id@ == "main-dfd"@,
            m.diagrams@[0].name@ == "Level 0 DFD"@,
            m.diagrams@[0].layout_file@ == ".threatforge/layouts/main-dfd.json"@,
    {
        let today = current_local_date();
        ThreatModel {
            version: "1.0".to_owned(),
            metadata: Metadata {
                title: title.to_owned(),
                author: author.to_owned(),
                created: today,
                modified: today,
                description: String::new(),
            },
            elements: Vec::new(),
            data_flows: Vec::new(),
            trust_boundaries: Vec::new(),
            threats: Vec::new(),
            diagrams: vec![
                Diagram {
                    id: "main-dfd".to_owned(),
                    name: "Level 0 DFD".to_owned(),
                    layout_file: ".threatforge/layouts/main-dfd.json".to_owned(),
                },
            ],
        }
    }
}

/// Generate a new element ID from a display name: the maximal alphanumeric
/// runs of the lowercased name, joined by single dashes.
pub fn generate_element_id(name: &str) -> (r: String)
    ensures
        r@ == text::slug_of(text::lower_of(name@)),
{
    let lowered = text::lowercase_str(name);
    let s = lowered.as_str();
    let n = s.unicode_len();
    let mut out = String::new();
    let mut i: usize = 0;
    let mut any = false;
    let mut in_run = false;
    while i < n
        invariant
            n == s@.len(),
            i <= n,
            text::slug_of(s@) == out@ + text::slug_rec(s@, i as int, any, in_run),
        decreases n - i,
    {
        let c = s.get_char(i);
        if text::char_is_alphanumeric(c) {
            let ghost prev = out@;
            if any && !in_run {
                proof {
                    reveal_strlit("-");
                }
                out.append("-");
            }
            let piece = s.substring_char(i, i + 1);
            proof {
                assert(piece@ =~= seq![s@[i as int]]);
            }
            out.append(piece);
            proof {
                if any && !in_run {
                    assert(out@ =~= prev + seq!['-', s@[i as int]]);
                } else {
                    assert(out@ =~= prev + seq![s@[i as int]]);
                }
                assert(text::slug_of(s@) == out@ + text::slug_rec(s@, i + 1, true, true)) by {
                    if any && !in_run {
                        assert(prev + (seq!['-', s@[i as int]] + text::slug_rec(s@, i + 1, true, true))
                            =~= (prev + seq!['-', s@[i as int]]) + text::slug_rec(s@, i + 1, true, true));
                    } else {
                        assert(prev + (seq![s@[i as int]] + text::slug_rec(s@, i + 1, true, true))
                            =~= (prev + seq![s@[i as int]]) + text::slug_rec(s@, i + 1, true, true));
                    }
                }
            }
            any = true;
            in_run = true;
        } else {
            in_run = false;
        }
        i = i + 1;
    }
    out
}

/// Relies on `uuid::Uuid::new_v4` and its simple formatting: a random token of
/// 32 lower-case hexadecimal ASCII characters. The value is random, so nothing
/// beyond its shape is promised.
#[verifier::external_body]
fn random_hex_token() -> (r: String)
    ensures
        r@.len() == 32,
        r.is_ascii(),
{
    uuid::Uuid::new_v4().as_simple().to_string()
}

/// Generate a unique threat ID: `threat-` followed by eight characters of a
/// random hexadecimal token.
pub fn generate_threat_id() -> (r: String)
    ensures
        r@.len() == 15,
        r@.subrange(0, 7) == "threat-"@,
{
    let token = random_hex_token();
    let prefix = token.as_str().substring_ascii(0, 8);
    proof {
        reveal_strlit("threat-");
    }
    let r = "threat-".to_owned().concat(prefix);
    proof {
        assert(r@.subrange(0, 7) =~= "threat-"@);
    }
    r
}

} // verus!
