//! The system prompt for the chat assistant: instructions for suggesting
//! threats, followed by a rendering of the current model state so the
//! assistant can make contextual suggestions.

use vstd::prelude::*;

use crate::models::{DataFlow, Element, Threat, ThreatModel, TrustBoundary};
use crate::text;
use crate::text::str_views;

verus! {

/// How a flag reads in the rendered model.
pub open spec fn bool_label(b: bool) -> Seq<char> {
    if b {
        "true"@
    } else {
        "false"@
    }
}

fn bool_str(b: bool) -> (r: &'static str)
    ensures
        r@ == bool_label(b),
{
    if b {
        "true"
    } else {
        "false"
    }
}

/// The fixed instructions that open every prompt: the assistant's role, the
/// STRIDE categories, the expected fenced-block format for new threats, and
/// the ground rules for referencing the model.
pub open spec fn intro_text() -> Seq<char> {
    "You are a senior security architect and threat modeling expert. You are helping a user analyze and improve their threat model using the STRIDE methodology.\n\nSTRIDE categories:\n- Spoofing: Can an attacker pretend to be someone/something else?\n- Tampering: Can an attacker modify data in transit or at rest?\n- Repudiation: Can an attacker deny performing an action?\n- Information Disclosure: Can an attacker access data they shouldn't?\n- Denial of Service: Can an attacker prevent legitimate access?\n- Elevation of Privilege: Can an attacker gain unauthorized access levels?\n\n"@
        + "When suggesting new threats, format them in a fenced code block with the language tag `threats` using YAML syntax:\n\n"@
        + "```threats\n"@ + "- title: \"Threat title here\"\n"@
        + "  category: Spoofing|Tampering|Repudiation|Information Disclosure|Denial of Service|Elevation of Privilege\n"@
        + "  element: element-id-here\n"@ + "  severity: critical|high|medium|low|info\n"@
        + "  description: \"Description of the threat and its impact.\"\n"@ + "```\n\n"@
        + "Only use element IDs that exist in the current model. Be specific and actionable in your threat descriptions. Consider the trust zones and data flows when assessing severity.\n\n"@
}

/// The document header: the title and author, and the description when one is
/// set.
pub open spec fn header_block(m: ThreatModel) -> Seq<char> {
    "--- CURRENT THREAT MODEL ---\n\n"@ + "Title: "@ + m.metadata.title@ + "\n"@ + "Author: "@
        + m.metadata.author@ + "\n"@ + (if m.metadata.description@.len() != 0 {
        "Description: "@ + m.metadata.description@ + "\n"@
    } else {
        Seq::<char>::empty()
    }) + "\n"@
}

/// One element's line: name, ID, type and trust zone, with technologies and
/// description when present.
pub open spec fn element_line(e: Element) -> Seq<char> {
    "  - "@ + e.name@ + " (id: "@ + e.id@ + ", type: "@ + e.element_type.label_spec()
        + ", trust_zone: "@ + e.trust_zone@ + (if e.technologies@.len() != 0 {
        ", technologies: ["@ + text::join_with(str_views(e.technologies@), ", "@) + "]"@
    } else {
        Seq::<char>::empty()
    }) + (if e.description@.len() != 0 {
        ", description: \""@ + e.description@ + "\""@
    } else {
        Seq::<char>::empty()
    }) + ")\n"@
}

/// The lines of the first `i` elements, in input order.
pub open spec fn elements_section(elems: Seq<Element>, i: int) -> Seq<char>
    decreases i,
{
    if i <= 0 {
        Seq::<char>::empty()
    } else {
        elements_section(elems, i - 1) + element_line(elems[i - 1])
    }
}

/// The elements section, omitted entirely when the model has no elements.
pub open spec fn elements_block(m: ThreatModel) -> Seq<char> {
    if m.elements@.len() == 0 {
        Seq::<char>::empty()
    } else {
        "Elements:\n"@ + elements_section(m.elements@, m.elements@.len() as int) + "\n"@
    }
}

/// One data flow's line: endpoints, ID, protocol, data items and the
/// authenticated flag.
pub open spec fn flow_line(f: DataFlow) -> Seq<char> {
    "  - "@ + f.from@ + " -> "@ + f.to@ + " (id: "@ + f.id@ + ", protocol: "@ + f.protocol@
        + ", data: ["@ + text::join_with(str_views(f.data@), ", "@) + "], authenticated: "@
        + bool_label(f.authenticated) + ")\n"@
}

/// The lines of the first `i` data flows, in input order.
pub open spec fn flows_section(flows: Seq<DataFlow>, i: int) -> Seq<char>
    decreases i,
{
    if i <= 0 {
        Seq::<char>::empty()
    } else {
        flows_section(flows, i - 1) + flow_line(flows[i - 1])
    }
}

/// The data-flows section, omitted entirely when the model has no flows.
pub open spec fn flows_block(m: ThreatModel) -> Seq<char> {
    if m.data_flows@.len() == 0 {
        Seq::<char>::empty()
    } else {
        "Data Flows:\n"@ + flows_section(m.data_flows@, m.data_flows@.len() as int) + "\n"@
    }
}

/// One trust boundary's line: name, ID and contained element IDs.
pub open spec fn boundary_line(b: TrustBoundary) -> Seq<char> {
    "  - "@ + b.name@ + " (id: "@ + b.id@ + ", contains: ["@ + text::join_with(
        str_views(b.contains@),
        ", "@,
    ) + "])\n"@
}

/// The lines of the first `i` trust boundaries, in input order.
pub open spec fn boundaries_section(bs: Seq<TrustBoundary>, i: int) -> Seq<char>
    decreases i,
{
    if i <= 0 {
        Seq::<char>::empty()
    } else {
        boundaries_section(bs, i - 1) + boundary_line(bs[i - 1])
    }
}

/// The trust-boundaries section, omitted entirely when the model has none.
pub open spec fn boundaries_block(m: ThreatModel) -> Seq<char> {
    if m.trust_boundaries@.len() == 0 {
        Seq::<char>::empty()
    } else {
        "Trust Boundaries:\n"@ + boundaries_section(
            m.trust_boundaries@,
            m.trust_boundaries@.len() as int,
        ) + "\n"@
    }
}

/// One existing threat's line: title, ID, category and severity, with the
/// element reference and mitigation status when present.
pub open spec fn threat_line(t: Threat) -> Seq<char> {
    "  - "@ + t.title@ + " (id: "@ + t.id@ + ", category: "@ + t.category.label_spec()
        + ", severity: "@ + t.severity.label_spec() + (if t.element is Some {
        ", element: "@ + t.element->0@
    } else {
        Seq::<char>::empty()
    }) + (if t.mitigation is Some {
        ", mitigation: "@ + t.mitigation->0.status.label_spec()
    } else {
        Seq::<char>::empty()
    }) + ")\n"@
}

/// The lines of the first `i` existing threats, in input order.
pub open spec fn threats_section(ts: Seq<Threat>, i: int) -> Seq<char>
    decreases i,
{
    if i <= 0 {
        Seq::<char>::empty()
    } else {
        threats_section(ts, i - 1) + threat_line(ts[i - 1])
    }
}

/// The existing-threats section, omitted entirely when the model has none.
pub open spec fn threats_block(m: ThreatModel) -> Seq<char> {
    if m.threats@.len() == 0 {
        Seq::<char>::empty()
    } else {
        "Existing Threats (already identified):\n"@ + threats_section(
            m.threats@,
            m.threats@.len() as int,
        ) + "\n"@
    }
}

/// The whole prompt: the fixed instructions, then the rendered model state.
pub open spec fn prompt_of(m: ThreatModel) -> Seq<char> {
    intro_text() + header_block(m) + elements_block(m) + flows_block(m) + boundaries_block(m)
        + threats_block(m) + "--- END THREAT MODEL ---\n"@
}

fn element_line_str(e: &Element) -> (r: String)
    ensures
        r@ == element_line(*e),
{
    let mut r = "  - ".to_owned();
    r.append(e.name.as_str());
    r.append(" (id: ");
    r.append(e.id.as_str());
    r.append(", type: ");
    r.append(e.element_type.label());
    r.append(", trust_zone: ");
    r.append(e.trust_zone.as_str());
    if e.technologies.len() != 0 {
        r.append(", technologies: [");
        let joined = text::join_strings(&e.technologies, ", ");
        r.append(joined.as_str());
        r.append("]");
    }
    if !e.description.as_str().is_empty() {
        r.append(", description: \"");
        r.append(e.description.as_str());
        r.append("\"");
    }
    r.append(")\n");
    proof {
        assert(r@ =~= element_line(*e));
    }
    r
}

fn flow_line_str(f: &DataFlow) -> (r: String)
    ensures
        r@ == flow_line(*f),
{
    let mut r = "  - ".to_owned();
    r.append(f.from.as_str());
    r.append(" -> ");
    r.append(f.to.as_str());
    r.append(" (id: ");
    r.append(f.id.as_str());
    r.append(", protocol: ");
    r.append(f.protocol.as_str());
    r.append(", data: [");
    let joined = text::join_strings(&f.data, ", ");
    r.append(joined.as_str());
    r.append("], authenticated: ");
    r.append(bool_str(f.authenticated));
    r.append(")\n");
    proof {
        assert(r@ =~= flow_line(*f));
    }
    r
}

fn boundary_line_str(b: &TrustBoundary) -> (r: String)
    ensures
        r@ == boundary_line(*b),
{
    let mut r = "  - ".to_owned();
    r.append(b.name.as_str());
    r.append(" (id: ");
    r.append(b.id.as_str());
    r.append(", contains: [");
    let joined = text::join_strings(&b.contains, ", ");
    r.append(joined.as_str());
    r.append("])\n");
    proof {
        assert(r@ =~= boundary_line(*b));
    }
    r
}

fn threat_line_str(t: &Threat) -> (r: String)
    ensures
        r@ == threat_line(*t),
{
    let mut r = "  - ".to_owned();
    r.append(t.title.as_str());
    r.append(" (id: ");
    r.append(t.id.as_str());
    r.append(", category: ");
    r.append(t.category.label());
    r.append(", severity: ");
    r.append(t.severity.label());
    if let Some(el) = &t.element {
        r.append(", element: ");
        r.append(el.as_str());
    }
    if let Some(mit) = &t.mitigation {
        r.append(", mitigation: ");
        r.append(mit.status.label());
    }
    r.append(")\n");
    proof {
        assert(r@ =~= threat_line(*t));
    }
    r
}

/// The fixed instructions, as an owned string.
fn intro_str() -> (r: String)
    ensures
        r@ == intro_text(),
{
    let mut r =
        "You are a senior security architect and threat modeling expert. You are helping a user analyze and improve their threat model using the STRIDE methodology.\n\nSTRIDE categories:\n- Spoofing: Can an attacker pretend to be someone/something else?\n- Tampering: Can an attacker modify data in transit or at rest?\n- Repudiation: Can an attacker deny performing an action?\n- Information Disclosure: Can an attacker access data they shouldn't?\n- Denial of Service: Can an attacker prevent legitimate access?\n- Elevation of Privilege: Can an attacker gain unauthorized access levels?\n\n".to_owned();
    r.append(
        "When suggesting new threats, format them in a fenced code block with the language tag `threats` using YAML syntax:\n\n",
    );
    r.append("```threats\n");
    r.append("- title: \"Threat title here\"\n");
    r.append(
        "  category: Spoofing|Tampering|Repudiation|Information Disclosure|Denial of Service|Elevation of Privilege\n",
    );
    r.append("  element: element-id-here\n");
    r.append("  severity: critical|high|medium|low|info\n");
    r.append("  description: \"Description of the threat and its impact.\"\n");
    r.append("```\n\n");
    r.append(
        "Only use element IDs that exist in the current model. Be specific and actionable in your threat descriptions. Consider the trust zones and data flows when assessing severity.\n\n",
    );
    proof {
        assert(r@ =~= intro_text());
    }
    r
}

fn header_block_str(model: &ThreatModel) -> (r: String)
    ensures
        r@ == header_block(*model),
{
    let mut r = "--- CURRENT THREAT MODEL ---\n\n".to_owned();
    r.append("Title: ");
    r.append(model.metadata.title.as_str());
    r.append("\n");
    r.append("Author: ");
    r.append(model.metadata.author.as_str());
    r.append("\n");
    if !model.metadata.description.as_str().is_empty() {
        r.append("Description: ");
        r.append(model.metadata.description.as_str());
        r.append("\n");
    }
    r.append("\n");
    proof {
        assert(r@ =~= header_block(*model));
    }
    r
}

fn elements_block_str(model: &ThreatModel) -> (r: String)
    ensures
        r@ == elements_block(*model),
{
    let ghost m = *model;
    if model.elements.len() == 0 {
        return String::new();
    }
    let mut r = "Elements:\n".to_owned();
    let ghost before = r@;
    let n = model.elements.len();
    let mut i: usize = 0;
    while i < n
        invariant
            m == *model,
            n == m.elements@.len(),
            i <= n,
            r@ == before + elements_section(m.elements@, i as int),
        decreases n - i,
    {
        let line = element_line_str(&model.elements[i]);
        r.append(line.as_str());
        proof {
            assert(r@ =~= before + elements_section(m.elements@, i + 1));
        }
        i = i + 1;
    }
    r.append("\n");
    proof {
        assert(r@ =~= elements_block(m));
    }
    r
}

fn flows_block_str(model: &ThreatModel) -> (r: String)
    ensures
        r@ == flows_block(*model),
{
    let ghost m = *model;
    if model.data_flows.len() == 0 {
        return String::new();
    }
    let mut r = "Data Flows:\n".to_owned();
    let ghost before = r@;
    let n = model.data_flows.len();
    let mut i: usize = 0;
    while i < n
        invariant
            m == *model,
            n == m.data_flows@.len(),
            i <= n,
            r@ == before + flows_section(m.data_flows@, i as int),
        decreases n - i,
    {
        let line = flow_line_str(&model.data_flows[i]);
        r.append(line.as_str());
        proof {
            assert(r@ =~= before + flows_section(m.data_flows@, i + 1));
        }
        i = i + 1;
    }
    r.append("\n");
    proof {
        assert(r@ =~= flows_block(m));
    }
    r
}

fn boundaries_block_str(model: &ThreatModel) -> (r: String)
    ensures
        r@ == boundaries_block(*model),
{
    let ghost m = *model;
    if model.trust_boundaries.len() == 0 {
        return String::new();
    }
    let mut r = "Trust Boundaries:\n".to_owned();
    let ghost before = r@;
    let n = model.trust_boundaries.len();
    let mut i: usize = 0;
    while i < n
        invariant
            m == *model,
            n == m.trust_boundaries@.len(),
            i <= n,
            r@ == before + boundaries_section(m.trust_boundaries@, i as int),
        decreases n - i,
    {
        let line = boundary_line_str(&model.trust_boundaries[i]);
        r.append(line.as_str());
        proof {
            assert(r@ =~= before + boundaries_section(m.trust_boundaries@, i + 1));
        }
        i = i + 1;
    }
    r.append("\n");
    proof {
        assert(r@ =~= boundaries_block(m));
    }
    r
}

fn threats_block_str(model: &ThreatModel) -> (r: String)
    ensures
        r@ == threats_block(*model),
{
    let ghost m = *model;
    if model.threats.len() == 0 {
        return String::new();
    }
    let mut r = "Existing Threats (already identified):\n".to_owned();
    let ghost before = r@;
    let n = model.threats.len();
    let mut i: usize = 0;
    while i < n
        invariant
            m == *model,
            n == m.threats@.len(),
            i <= n,
            r@ == before + threats_section(m.threats@, i as int),
        decreases n - i,
    {
        let line = threat_line_str(&model.threats[i]);
        r.append(line.as_str());
        proof {
            assert(r@ =~= before + threats_section(m.threats@, i + 1));
        }
        i = i + 1;
    }
    r.append("\n");
    proof {
        assert(r@ =~= threats_block(m));
    }
    r
}

/// Build a system prompt that includes the current threat model context, so
/// the assistant can make suggestions grounded in the model's actual
/// elements, flows, boundaries and existing threats.
pub fn build_system_prompt(model: &ThreatModel) -> (r: String)
    ensures
        r@ == prompt_of(*model),
{
    let ghost m = *model;
    let mut prompt = intro_str();
    let header = header_block_str(model);
    prompt.append(header.as_str());
    let elements = elements_block_str(model);
    prompt.append(elements.as_str());
    let flows = flows_block_str(model);
    prompt.append(flows.as_str());
    let boundaries = boundaries_block_str(model);
    prompt.append(boundaries.as_str());
    let threats = threats_block_str(model);
    prompt.append(threats.as_str());
    prompt.append("--- END THREAT MODEL ---\n");
    proof {
        assert(prompt@ =~= prompt_of(m));
    }
    prompt
}

} // verus!
