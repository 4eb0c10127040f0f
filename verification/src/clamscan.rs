//! What the sensor makes of the lines of a malware scan.

use vstd::prelude::*;

use crate::clock::{Stamp, StampView};
use crate::digest;
use crate::digest::{build_event_id, build_evidence_hash};
use crate::digits;
use crate::digits::write_decimal;
use crate::incident;
use crate::incident::{assemble, Details, DetailsView, IdentityView, IncidentRecord, IncidentView, SensorIdentity};
use crate::text;
use crate::text::{ends_with, find, slice, trim};

verus! {

/// The file and the name of the threat in a line such as `/path/to/file: Name FOUND`: what stands
/// before and behind the first `: `. A line without one stands for both.
pub open spec fn threat_parts(line: Seq<char>) -> (Seq<char>, Seq<char>) {
    if text::occurs_in(line, ": "@) {
        let at = choose|at: int| text::first_occurrence(line, ": "@, at);
        (line.take(at), line.skip(at + 2))
    } else {
        (line, line)
    }
}

/// The line of a scan, without white space at its ends, tells of a threat.
pub open spec fn is_threat(line: Seq<char>) -> bool {
    text::has_suffix(text::trimmed(line), " FOUND"@)
}

/// The incident of a threat.
pub open spec fn threat_incident(
    file_path: Seq<char>,
    virus_info: Seq<char>,
    target: Seq<char>,
    stamp: StampView,
    identity: IdentityView,
) -> IncidentView {
    incident::assembled(
        DetailsView {
            event_id: digest::identifier("CLAMSCAN_THREAT"@, file_path, stamp.millis, identity.byte_order),
            incident_type_id: 17,
            timestamp: stamp.timestamp,
            source: file_path,
            severity: "critical"@,
            confidence: 99,
            signature: "clamscan_threat_found: "@ + virus_info,
            evidence_hash: digest::evidence(file_path, virus_info, target),
            action_hint: "quarantine_and_alert"@,
        },
        identity,
    )
}

/// What a line of a scan tells.
pub enum ScanFinding {
    /// Nothing.
    Blank,
    /// Of a threat.
    Threat(IncidentRecord),
    /// Of something else, with the diagnostic line that passes it on.
    Remark(String),
}

/// The contents of a [`ScanFinding`].
pub enum ScanFindingView {
    Blank,
    Threat(IncidentView),
    Remark(Seq<char>),
}

impl View for ScanFinding {
    type V = ScanFindingView;

    open spec fn view(&self) -> ScanFindingView {
        match self {
            ScanFinding::Blank => ScanFindingView::Blank,
            ScanFinding::Threat(record) => ScanFindingView::Threat(record@),
            ScanFinding::Remark(remark) => ScanFindingView::Remark(remark@),
        }
    }
}

/// What a line of a scan of `target` tells.
pub open spec fn finding(
    line: Seq<char>,
    target: Seq<char>,
    stamp: StampView,
    identity: IdentityView,
) -> ScanFindingView {
    let kept = text::trimmed(line);
    if kept.len() == 0 {
        ScanFindingView::Blank
    } else if is_threat(line) {
        let (file_path, virus_info) = threat_parts(kept);
        ScanFindingView::Threat(threat_incident(file_path, virus_info, target, stamp, identity))
    } else {
        ScanFindingView::Remark("clamscan: "@ + kept)
    }
}

/// The number of threats after one more line.
pub open spec fn threats_after(threats: u32, finding: ScanFindingView) -> int {
    if finding is Threat {
        threats + 1
    } else {
        threats as int
    }
}

/// Whether the line of a scan tells of a threat.
pub fn tells_of_threat(line: &str) -> (result: bool)
    ensures
        result == is_threat(line@),
{
    ends_with(trim(line).as_str(), " FOUND")
}

/// The file and the name of the threat in a line.
fn split_threat(line: &str) -> (parts: (String, String))
    ensures
        (parts.0@, parts.1@) == threat_parts(line@),
{
    match find(line, ": ") {
        Some(at) => {
            let length: usize = line.unicode_len();
            proof {
                reveal_strlit(": ");
                let first = choose|first: int| text::first_occurrence(line@, ": "@, first);
                assert(text::first_occurrence(line@, ": "@, at as int));
                assert(first == at);
                assert(text::occurs_in(line@, ": "@));
                assert(line@.subrange(0, at as int) == line@.take(at as int));
                assert(line@.subrange(at + 2, line@.len() as int) == line@.skip(at + 2));
            }
            (slice(line, 0, at), slice(line, at + 2, length))
        },
        None => (line.to_owned(), line.to_owned()),
    }
}

/// A scan of a target, and how many threats it has found.
pub struct Scan {
    pub target: String,
    pub threats: u32,
}

/// The incident of a threat in a file.
pub fn report_threat(
    file_path: &str,
    virus_info: &str,
    target: &str,
    stamp: &Stamp,
    identity: &SensorIdentity,
) -> (record: IncidentRecord)
    ensures
        record@ == threat_incident(file_path@, virus_info@, target@, stamp@, identity@),
{
    let mut signature = "clamscan_threat_found: ".to_owned();
    signature.append(virus_info);
    assemble(
        Details {
            event_id: build_event_id("CLAMSCAN_THREAT", file_path, stamp.millis, identity.byte_order),
            incident_type_id: 17,
            timestamp: stamp.timestamp.as_str(),
            source: file_path,
            severity: "critical",
            confidence: 99,
            signature: signature.as_str(),
            evidence_hash: build_evidence_hash(file_path, virus_info, target),
            action_hint: "quarantine_and_alert",
        },
        identity,
    )
}

/// What the end of a scan is reported as.
pub open spec fn summary(threats: u32, exit_status: Option<Seq<char>>) -> Seq<char> {
    if threats > 0 {
        "clamscan: scan complete — "@ + digits::decimal(threats as nat) + " threat(s) found"@
    } else {
        match exit_status {
            Some(status) => "clamscan: scan complete — no threats found (exit code: "@ + status
                + ")"@,
            None => "clamscan: scan complete — no threats found"@,
        }
    }
}

impl Scan {
    /// A scan that has found nothing yet.
    pub fn new(target: String) -> (scan: Self)
        ensures
            scan.target@ == target@,
            scan.threats == 0,
    {
        Scan { target, threats: 0 }
    }

    /// Takes in a line at the time of `stamp`.
    pub fn take_line_at(&mut self, line: &str, stamp: &Stamp, identity: &SensorIdentity) -> (found:
        ScanFinding)
        requires
            is_threat(line@) ==> old(self).threats < u32::MAX,
        ensures
            found@ == finding(line@, old(self).target@, stamp@, identity@),
            final(self).target@ == old(self).target@,
            final(self).threats == threats_after(old(self).threats, found@),
    {
        let kept = trim(line);
        if kept.as_str().is_empty() {
            assert(kept@.len() == 0);
            return ScanFinding::Blank;
        }
        if ends_with(kept.as_str(), " FOUND") {
            let (file_path, virus_info) = split_threat(kept.as_str());
            self.threats = self.threats + 1;
            ScanFinding::Threat(
                report_threat(
                    file_path.as_str(),
                    virus_info.as_str(),
                    self.target.as_str(),
                    stamp,
                    identity,
                ),
            )
        } else {
            let mut remark = "clamscan: ".to_owned();
            remark.append(kept.as_str());
            ScanFinding::Remark(remark)
        }
    }

    /// Takes in a line at the present time.
    pub fn take_line(&mut self, line: &str, identity: &SensorIdentity) -> (found: ScanFinding)
        requires
            is_threat(line@) ==> old(self).threats < u32::MAX,
        ensures
            exists|stamp: StampView|
                stamp.is_reading() && #[trigger] finding(
                    line@,
                    old(self).target@,
                    stamp,
                    identity@,
                ) == found@,
            final(self).target@ == old(self).target@,
            final(self).threats == threats_after(old(self).threats, found@),
    {
        let stamp = Stamp::read();
        self.take_line_at(line, &stamp, identity)
    }

    /// What the end of the scan is reported as; `exit_status` tells how the scanner ended, where
    /// that is known.
    pub fn summary(&self, exit_status: Option<&str>) -> (line: String)
        ensures
            line@ == summary(self.threats, text::opt_str_view(exit_status)),
    {
        if self.threats > 0 {
            let mut line = "clamscan: scan complete — ".to_owned();
            line.append(write_decimal(self.threats as u128).as_str());
            line.append(" threat(s) found");
            line
        } else {
            match exit_status {
                Some(status) => {
                    let mut line = "clamscan: scan complete — no threats found (exit code: ".to_owned();
                    line.append(status);
                    line.append(")");
                    line
                },
                None => "clamscan: scan complete — no threats found".to_owned(),
            }
        }
    }
}

/// A line makes an incident exactly when it ends in ` FOUND`, white space aside; that incident
/// belongs to the taxonomy.
pub proof fn lemma_only_found_is_reported(
    line: Seq<char>,
    target: Seq<char>,
    stamp: StampView,
    identity: IdentityView,
)
    ensures
        finding(line, target, stamp, identity) is Threat <==> is_threat(line),
        finding(line, target, stamp, identity) matches ScanFindingView::Threat(record)
            ==> incident::in_taxonomy(record) && record.incident_type_id == 17,
{
    reveal_strlit(" FOUND");
}

/// The file of a threat and its name make up the line again, where the line has a `: ` at all; the
/// path of the file holds none.
pub proof fn lemma_threat_parts(line: Seq<char>)
    requires
        text::occurs_in(line, ": "@),
    ensures
        threat_parts(line).0 + ": "@ + threat_parts(line).1 == line,
        !text::occurs_in(threat_parts(line).0, ": "@),
{
    reveal_strlit(": ");
    let colon = ": "@;
    let somewhere = choose|at: int| text::occurs_at(line, colon, at);
    lemma_first_exists(line, colon, somewhere);
    let at = choose|at: int| text::first_occurrence(line, colon, at);
    let path = line.take(at);
    assert(line == line.take(at) + line.subrange(at, at + 2) + line.skip(at + 2));
    assert forall|k: int| !text::occurs_at(path, colon, k) by {
        if text::occurs_at(path, colon, k) {
            assert(path.subrange(k, k + 2) == line.subrange(k, k + 2));
            assert(text::occurs_at(line, colon, k));
        }
    }
}

/// What occurs somewhere occurs somewhere first.
proof fn lemma_first_exists(s: Seq<char>, pattern: Seq<char>, at: int)
    requires
        text::occurs_at(s, pattern, at),
    ensures
        exists|first: int| text::first_occurrence(s, pattern, first),
    decreases at,
{
    if exists|earlier: int| 0 <= earlier < at && text::occurs_at(s, pattern, earlier) {
        let earlier = choose|earlier: int|
            0 <= earlier < at && text::occurs_at(s, pattern, earlier);
        lemma_first_exists(s, pattern, earlier);
    } else {
        assert(text::first_occurrence(s, pattern, at));
    }
}

} // verus!
