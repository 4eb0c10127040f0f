//! What holds of udev events and of the lines that they are read from, for all inputs.

use vstd::prelude::*;

use crate::text;
use crate::udev;
use crate::udev::{UdevEvent, UdevEventView};

verus! {

/// The view of an event holds its header, and each property under its name.
pub proof fn lemma_event_view(event: UdevEvent)
    ensures
        event@.header is Some <==> event.header is Some,
        event.header matches Some(header) ==> event@.header == Some(header@),
        forall|name: Seq<char>| #[trigger]
            event@.properties.contains_key(name) <==> event.properties@.contains_key(name),
        forall|name: Seq<char>|
            event@.properties.contains_key(name) ==> (#[trigger] event@.properties[name])
                == event.properties@[name]@,
        UdevEventView::blank().header is None,
        forall|name: Seq<char>| !#[trigger] UdevEventView::blank().properties.contains_key(name),
{
}

/// A property is there where its name is, and its value is the one under that name.
pub proof fn lemma_properties(event: UdevEventView, name: Seq<char>)
    ensures
        event.property(name) is Some <==> event.properties.contains_key(name),
        event.properties.contains_key(name) ==> event.property(name) == Some(
            event.properties[name],
        ) && event.property_or_empty(name) == event.properties[name],
        !event.properties.contains_key(name) ==> event.property_or_empty(name).len() == 0,
        event.devpath() is Some <==> event.properties.contains_key("DEVPATH"@),
        event.devpath() matches Some(path) ==> path == event.properties["DEVPATH"@],
{
}

/// Something was read of an event exactly when it has a header or a property.
pub proof fn lemma_has_data(event: UdevEventView)
    ensures
        event.has_data() <==> event.header is Some || exists|name: Seq<char>| #[trigger]
            event.properties.contains_key(name),
{
    if forall|name: Seq<char>| !#[trigger] event.properties.contains_key(name) {
        assert(event.properties == Map::<Seq<char>, Seq<char>>::empty());
    }
}

/// A header names an action that it contains: `add` goes before `remove`, that before `change`,
/// that before `unbind`, and that before `bind`; it names none where it contains none.
pub proof fn lemma_header_action(header: Seq<char>)
    ensures
        udev::header_action(header) == Some("add"@) <==> text::occurs_in(header, "add"@),
        udev::header_action(header) == Some("remove"@) <==> text::occurs_in(header, "remove"@)
            && !text::occurs_in(header, "add"@),
        udev::header_action(header) == Some("change"@) <==> text::occurs_in(header, "change"@)
            && !text::occurs_in(header, "add"@) && !text::occurs_in(header, "remove"@),
        udev::header_action(header) == Some("unbind"@) <==> text::occurs_in(header, "unbind"@)
            && !text::occurs_in(header, "add"@) && !text::occurs_in(header, "remove"@)
            && !text::occurs_in(header, "change"@),
        udev::header_action(header) == Some("bind"@) <==> text::occurs_in(header, "bind"@)
            && !text::occurs_in(header, "unbind"@) && !text::occurs_in(header, "add"@)
            && !text::occurs_in(header, "remove"@) && !text::occurs_in(header, "change"@),
        udev::header_action(header) is None <==> !text::occurs_in(header, "add"@)
            && !text::occurs_in(header, "remove"@) && !text::occurs_in(header, "change"@)
            && !text::occurs_in(header, "unbind"@) && !text::occurs_in(header, "bind"@),
{
    reveal_strlit("add");
    reveal_strlit("remove");
    reveal_strlit("change");
    reveal_strlit("unbind");
    reveal_strlit("bind");
    assert("add"@.len() == 3 && "bind"@.len() == 4);
    assert("remove"@[0] == 'r' && "change"@[0] == 'c' && "unbind"@[0] == 'u');
}

/// The action of an event is its property `ACTION`, whatever its header says; without that
/// property, what the header names; and `change` where neither gives one.
pub proof fn lemma_event_action(event: UdevEventView)
    ensures
        event.properties.contains_key("ACTION"@) ==> event.action()
            == event.properties["ACTION"@],
        !event.properties.contains_key("ACTION"@) && event.header is None ==> event.action()
            == "change"@,
        !event.properties.contains_key("ACTION"@) && event.header is Some && udev::header_action(
            event.header->0,
        ) is Some ==> Some(event.action()) == udev::header_action(event.header->0),
        !event.properties.contains_key("ACTION"@) && event.header is Some && udev::header_action(
            event.header->0,
        ) is None ==> event.action() == "change"@,
{
}

/// The actions that are known.
pub proof fn lemma_known_actions(action: Seq<char>)
    ensures
        udev::is_known_action(action) <==> action == "add"@ || action == "bind"@ || action
            == "remove"@ || action == "detach"@ || action == "unbind"@ || action == "change"@,
{
}

/// An event is malformed exactly when it has a header, no device path, no known action as its
/// property, and none that its header names.
pub proof fn lemma_malformed(event: UdevEventView)
    ensures
        event.is_malformed() <==> {
            &&& event.header is Some
            &&& !event.properties.contains_key("DEVPATH"@)
            &&& udev::header_action(event.header->0) is None
            &&& event.properties.contains_key("ACTION"@) ==> {
                let action = event.properties["ACTION"@];
                action != "add"@ && action != "bind"@ && action != "remove"@ && action
                    != "detach"@ && action != "unbind"@ && action != "change"@
            }
        },
{
}

/// A line is a header exactly when it begins with `UDEV` or `KERNEL`, and not as the two lines of
/// the legend do.
pub proof fn lemma_header_line(line: Seq<char>)
    ensures
        udev::is_header_line(line) <==> (text::has_prefix(line, "UDEV"@) || text::has_prefix(
            line,
            "KERNEL"@,
        )) && !text::has_prefix(line, "UDEV - "@) && !text::has_prefix(line, "KERNEL - "@),
{
}

/// A blank line hands out the event that was being read, if there is anything of it, and begins an
/// empty one.
pub proof fn lemma_blank_line(event: UdevEventView, line: Seq<char>)
    requires
        text::trimmed_end(line).len() == 0,
    ensures
        udev::line_step(event, line).0.header is None,
        forall|name: Seq<char>| !#[trigger]
            udev::line_step(event, line).0.properties.contains_key(name),
        udev::line_step(event, line).1 is Some <==> event.has_data(),
        udev::line_step(event, line).1 matches Some(done) ==> done == event,
{
}

/// A header line hands out the event that was being read, if there is anything of it, and begins
/// one with that header and no property.
pub proof fn lemma_header_begins_event(event: UdevEventView, line: Seq<char>)
    requires
        udev::is_header_line(text::trimmed_end(line)),
    ensures
        udev::line_step(event, line).0.header == Some(text::trimmed_end(line)),
        forall|name: Seq<char>| !#[trigger]
            udev::line_step(event, line).0.properties.contains_key(name),
        udev::line_step(event, line).1 is Some <==> event.has_data(),
        udev::line_step(event, line).1 matches Some(done) ==> done == event,
{
    reveal_strlit("UDEV");
    reveal_strlit("KERNEL");
}

/// Any other line hands out nothing and keeps the header. One with an equals sign sets one
/// property: the name before the first of them, the value behind it, both trimmed; one without
/// sets none.
pub proof fn lemma_other_line(event: UdevEventView, line: Seq<char>)
    requires
        text::trimmed_end(line).len() > 0,
        !udev::is_header_line(text::trimmed_end(line)),
    ensures
        udev::line_step(event, line).1 is None,
        udev::line_step(event, line).0.header == event.header,
        match text::cut_once(text::trimmed_end(line), '=') {
            Some((name, value)) => udev::line_step(event, line).0.properties
                == event.properties.insert(text::trimmed(name), text::trimmed(value)),
            None => udev::line_step(event, line).0.properties == event.properties,
        },
{
}

/// Reading goes line by line: a further line is taken in after the others, and what it hands out
/// comes last.
pub proof fn lemma_lines_in_turn(event: UdevEventView, lines: Seq<Seq<char>>, line: Seq<char>)
    ensures
        udev::read_lines(event, Seq::empty()).0 == event,
        udev::read_lines(event, Seq::empty()).1.len() == 0,
        udev::read_lines(event, lines.push(line)).0 == udev::line_step(
            udev::read_lines(event, lines).0,
            line,
        ).0,
        udev::read_lines(event, lines.push(line)).1 == match udev::line_step(
            udev::read_lines(event, lines).0,
            line,
        ).1 {
            Some(done) => udev::read_lines(event, lines).1.push(done),
            None => udev::read_lines(event, lines).1,
        },
{
    assert(lines.push(line).drop_last() == lines);
}

} // verus!
