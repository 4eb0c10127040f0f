//! The list of USB device classes that are permitted.

use vstd::prelude::*;

use crate::clock::{Stamp, StampView};
use crate::digest;
use crate::digest::{build_event_id, build_evidence_hash};
use crate::incident;
use crate::incident::{assemble, Details, DetailsView, IdentityView, IncidentRecord, IncidentView, SensorIdentity};
use crate::text;
use crate::text::{same_text, split, trim};
use crate::udev::{UdevEvent, UdevEventView};

verus! {

/// The text that `str::to_lowercase` gives for a string.
pub uninterp spec fn lowercase(text: Seq<char>) -> Seq<char>;

/// An ASCII text.
pub open spec fn is_ascii_text(text: Seq<char>) -> bool {
    forall|i: int| 0 <= i < text.len() ==> (#[trigger] text[i] as u32) < 0x80
}

/// An ASCII character in lower case.
pub open spec fn ascii_lower(c: char) -> char {
    if 'A' <= c && c <= 'Z' {
        (c as u32 + 32) as char
    } else {
        c
    }
}

/// An ASCII text in lower case.
pub open spec fn ascii_lowered(text: Seq<char>) -> Seq<char> {
    text.map_values(|c: char| ascii_lower(c))
}

/// `str::to_lowercase` maps a string to lower case by the rules of Unicode. Which string comes out
/// depends on the one that goes in alone; in an ASCII string just the letters `A` to `Z` change.
#[verifier::external_body]
fn to_lowercase(text: &str) -> (lower: String)
    ensures
        lower@ == lowercase(text@),
        is_ascii_text(text@) ==> lower@ == ascii_lowered(text@),
{
    text.to_lowercase()
}

/// The permitted classes of a comma-separated list, each trimmed and in lower case.
pub open spec fn permitted_classes(allowed: Seq<char>) -> Seq<Seq<char>> {
    text::pieces(allowed, ',').map_values(|piece: Seq<char>| lowercase(text::trimmed(piece)))
}

/// The permitted classes of an ASCII list, each trimmed and in lower case.
pub open spec fn ascii_classes(allowed: Seq<char>) -> Seq<Seq<char>> {
    text::pieces(allowed, ',').map_values(|piece: Seq<char>| ascii_lowered(text::trimmed(piece)))
}

/// A device class that a list permits.
pub open spec fn is_permitted(allowed: Seq<char>, device_class: Seq<char>) -> bool {
    permitted_classes(allowed).contains(lowercase(device_class))
}

/// A class that is checked: one that names something other than the interfaces of the device.
pub open spec fn is_checked_class(device_class: Option<Seq<char>>) -> bool {
    device_class is Some && device_class->0.len() > 0 && device_class->0 != "00"@
}

/// What the incident of a class that is not permitted says.
pub open spec fn unauthorized_signature(device_class: Seq<char>, allowed: Seq<char>) -> Seq<char> {
    "device class "@ + device_class + " not in allowed list ["@ + allowed + "]"@
}

/// The incident of a class that is not permitted.
pub open spec fn unauthorized_incident(
    devpath: Seq<char>,
    device_class: Seq<char>,
    allowed: Seq<char>,
    stamp: StampView,
    identity: IdentityView,
) -> IncidentView {
    IncidentView {
        usb_class: Some(device_class),
        ..incident::assembled(
            DetailsView {
                event_id: digest::identifier("USB_UNAUTH_CLASS"@, devpath, stamp.millis, identity.byte_order),
                incident_type_id: 8,
                timestamp: stamp.timestamp,
                source: devpath,
                severity: "high"@,
                confidence: 95,
                signature: unauthorized_signature(device_class, allowed),
                evidence_hash: digest::evidence(devpath, device_class, allowed),
                action_hint: "block_device"@,
            },
            identity,
        )
    }
}

/// The incident of a plugged device whose class is not permitted. Nothing is checked where no list
/// is configured, where the event names no device, or where the device leaves its class to its
/// interfaces.
pub open spec fn class_incident(
    event: UdevEventView,
    allowed: Seq<char>,
    device_class: Option<Seq<char>>,
    stamp: StampView,
    identity: IdentityView,
) -> Option<IncidentView> {
    if allowed.len() > 0 && event.devpath() is Some && is_checked_class(device_class)
        && !is_permitted(allowed, device_class->0) {
        Some(
            unauthorized_incident(event.devpath()->0, device_class->0, allowed, stamp, identity),
        )
    } else {
        None
    }
}

/// Whether a text is one of a list.
pub fn is_listed(list: &Vec<String>, wanted: &str) -> (result: bool)
    ensures
        result == text::views(list@).contains(wanted@),
{
    let mut i: usize = 0;
    while i < list.len()
        invariant
            i <= list@.len(),
            forall|k: int| 0 <= k < i ==> text::views(list@)[k] != wanted@,
        decreases list@.len() - i,
    {
        if same_text(list[i].as_str(), wanted) {
            assert(text::views(list@)[i as int] == wanted@);
            return true;
        }
        assert(text::views(list@)[i as int] != wanted@);
        i += 1;
    }
    false
}

/// The permitted classes of a comma-separated list, each trimmed and in lower case.
pub fn parse_permitted_classes(allowed: &str) -> (classes: Vec<String>)
    ensures
        text::views(classes@) == permitted_classes(allowed@),
        is_ascii_text(allowed@) ==> text::views(classes@) == ascii_classes(allowed@),
{
    let parts = split(allowed, ',');
    let ghost pieces = text::pieces(allowed@, ',');
    let mut classes: Vec<String> = Vec::new();
    let mut i: usize = 0;
    while i < parts.len()
        invariant
            i <= parts@.len(),
            text::views(parts@) == pieces,
            pieces == text::pieces(allowed@, ','),
            text::views(classes@) == permitted_classes(allowed@).take(i as int),
            is_ascii_text(allowed@) ==> text::views(classes@) == ascii_classes(allowed@).take(
                i as int,
            ),
        decreases parts@.len() - i,
    {
        let part = trim(parts[i].as_str());
        let lower = to_lowercase(part.as_str());
        assert(pieces[i as int] == parts@[i as int]@);
        proof {
            if is_ascii_text(allowed@) {
                lemma_pieces_are_ascii(allowed@);
                lemma_trimmed_is_ascii(pieces[i as int]);
                assert(lower@ == ascii_classes(allowed@)[i as int]);
            }
        }
        let ghost before = text::views(classes@);
        let ghost last = lower@;
        classes.push(lower);
        assert(text::views(classes@) == before.push(last));
        i += 1;
    }
    assert(text::views(classes@) == permitted_classes(allowed@));
    classes
}

/// The pieces of an ASCII text are ASCII.
proof fn lemma_pieces_are_ascii(text: Seq<char>)
    requires
        is_ascii_text(text),
    ensures
        text::pieces(text, ',').len() > 0,
        forall|i: int|
            0 <= i < text::pieces(text, ',').len() ==> is_ascii_text(
                #[trigger] text::pieces(text, ',')[i],
            ),
    decreases text.len(),
{
    if text.len() > 0 {
        lemma_pieces_are_ascii(text.drop_last());
        let before = text::pieces(text.drop_last(), ',');
        assert(is_ascii_text(before[before.len() - 1]));
        assert(text[text.len() - 1] as u32 <= 0x7f);
    }
}

/// An ASCII text stays ASCII without the white space at its ends.
proof fn lemma_trimmed_is_ascii(text: Seq<char>)
    requires
        is_ascii_text(text),
    ensures
        is_ascii_text(text::trimmed(text)),
    decreases text.len(),
{
    lemma_trimmed_end_is_ascii(text);
    lemma_trimmed_start_is_ascii(text::trimmed_end(text));
}

/// An ASCII text stays ASCII without the white space at its end.
proof fn lemma_trimmed_end_is_ascii(text: Seq<char>)
    requires
        is_ascii_text(text),
    ensures
        is_ascii_text(text::trimmed_end(text)),
    decreases text.len(),
{
    if text.len() > 0 {
        lemma_trimmed_end_is_ascii(text.drop_last());
    }
}

/// An ASCII text stays ASCII without the white space at its front.
proof fn lemma_trimmed_start_is_ascii(text: Seq<char>)
    requires
        is_ascii_text(text),
    ensures
        is_ascii_text(text::trimmed_start(text)),
    decreases text.len(),
{
    if text.len() > 0 {
        assert forall|i: int| 0 <= i < text.drop_first().len() implies (
            #[trigger] text.drop_first()[i] as u32) < 0x80 by {
            assert(text.drop_first()[i] == text[i + 1]);
        }
        lemma_trimmed_start_is_ascii(text.drop_first());
    }
}

/// The incident of a class that is not permitted.
fn report_class(
    devpath: &str,
    device_class: &str,
    allowed: &str,
    stamp: &Stamp,
    identity: &SensorIdentity,
) -> (record: IncidentRecord)
    ensures
        record@ == unauthorized_incident(devpath@, device_class@, allowed@, stamp@, identity@),
{
    let mut reason = "device class ".to_owned();
    reason.append(device_class);
    reason.append(" not in allowed list [");
    reason.append(allowed);
    reason.append("]");
    let mut record = assemble(
        Details {
            event_id: build_event_id("USB_UNAUTH_CLASS", devpath, stamp.millis, identity.byte_order),
            incident_type_id: 8,
            timestamp: stamp.timestamp.as_str(),
            source: devpath,
            severity: "high",
            confidence: 95,
            signature: reason.as_str(),
            evidence_hash: build_evidence_hash(devpath, device_class, allowed),
            action_hint: "block_device",
        },
        identity,
    );
    record.usb_class = Some(device_class.to_owned());
    record
}

/// The class of a device to check, given what was read of it: neither empty nor `00`.
pub fn checked_class(device_class: Option<&str>) -> (class: Option<&str>)
    ensures
        class is Some <==> is_checked_class(text::opt_str_view(device_class)),
        class is Some <==> device_class is Some && device_class->0@.len() > 0 && device_class->0@
            != "00"@,
        class is Some ==> class == device_class,
{
    match device_class {
        Some(class) => if !class.is_empty() && !same_text(class, "00") {
            Some(class)
        } else {
            None
        },
        None => None,
    }
}

/// Checks the class of a plugged device, at the time of `stamp`, against the list of permitted
/// classes that is configured.
pub fn check_unauthorized_class_at(
    event: &UdevEvent,
    allowed: &str,
    device_class: Option<&str>,
    stamp: &Stamp,
    identity: &SensorIdentity,
) -> (incident: Option<IncidentRecord>)
    ensures
        incident::opt_record_view(incident) == class_incident(
            event@,
            allowed@,
            text::opt_str_view(device_class),
            stamp@,
            identity@,
        ),
        incident is Some <==> allowed@.len() > 0 && event@.devpath() is Some && device_class is Some
            && device_class->0@.len() > 0 && device_class->0@ != "00"@
            && !permitted_classes(allowed@).contains(lowercase(device_class->0@)),
        // In ASCII, permitted means listed in whatever case.
        device_class matches Some(class) ==> is_ascii_text(allowed@) && is_ascii_text(class@)
            && allowed@.len() > 0 && event@.devpath() is Some && class@.len() > 0 && class@
            != "00"@ ==> (incident is None <==> ascii_classes(allowed@).contains(ascii_lowered(class@))),
{
    if allowed.is_empty() {
        return None;
    }
    let devpath = match event.devpath() {
        Some(devpath) => devpath,
        None => {
            return None;
        },
    };
    let class = match checked_class(device_class) {
        Some(class) => class,
        None => {
            return None;
        },
    };
    let classes = parse_permitted_classes(allowed);
    if is_listed(&classes, to_lowercase(class).as_str()) {
        None
    } else {
        Some(report_class(devpath, class, allowed, stamp, identity))
    }
}

/// Checks the class of a plugged device at the present time.
pub fn check_unauthorized_class(
    event: &UdevEvent,
    allowed: &str,
    device_class: Option<&str>,
    identity: &SensorIdentity,
) -> (incident: Option<IncidentRecord>)
    ensures
        exists|stamp: StampView|
            stamp.is_reading() && #[trigger] class_incident(
                event@,
                allowed@,
                text::opt_str_view(device_class),
                stamp,
                identity@,
            ) == incident::opt_record_view(incident),
        incident is Some <==> allowed@.len() > 0 && event@.devpath() is Some && device_class is Some
            && device_class->0@.len() > 0 && device_class->0@ != "00"@
            && !permitted_classes(allowed@).contains(lowercase(device_class->0@)),
        // In ASCII, permitted means listed in whatever case.
        device_class matches Some(class) ==> is_ascii_text(allowed@) && is_ascii_text(class@)
            && allowed@.len() > 0 && event@.devpath() is Some && class@.len() > 0 && class@
            != "00"@ ==> (incident is None <==> ascii_classes(allowed@).contains(ascii_lowered(class@))),
{
    let stamp = Stamp::read();
    check_unauthorized_class_at(event, allowed, device_class, &stamp, identity)
}

/// A class that stands in the list as it is, between commas, is permitted; and what is reported of
/// a class belongs to the taxonomy.
pub proof fn lemma_listed_class_is_permitted(
    event: UdevEventView,
    allowed: Seq<char>,
    device_class: Seq<char>,
    stamp: StampView,
    identity: IdentityView,
)
    ensures
        text::pieces(allowed, ',').contains(device_class) && text::trimmed(device_class)
            == device_class ==> class_incident(event, allowed, Some(device_class), stamp, identity)
            is None,
        class_incident(event, allowed, Some(device_class), stamp, identity) matches Some(record)
            ==> incident::in_taxonomy(record),
{
    let pieces = text::pieces(allowed, ',');
    if pieces.contains(device_class) && text::trimmed(device_class) == device_class {
        let i = choose|i: int| 0 <= i < pieces.len() && pieces[i] == device_class;
        assert(permitted_classes(allowed)[i] == lowercase(device_class));
    }
}

} // verus!
