//! Events of the udev monitor, read line by line.

use vstd::hash_map::StringHashMap;
use vstd::prelude::*;

use crate::text;
use crate::text::{as_opt_str, contains, same_text, split_once, starts_with, trim, trim_end};

verus! {

/// One event: the header line and the properties that follow it.
pub struct UdevEvent {
    pub header: Option<String>,
    pub properties: StringHashMap<String>,
}

/// The contents of a [`UdevEvent`].
#[verifier::ext_equal]
pub struct UdevEventView {
    pub header: Option<Seq<char>>,
    pub properties: Map<Seq<char>, Seq<char>>,
}

impl View for UdevEvent {
    type V = UdevEventView;

    open spec fn view(&self) -> UdevEventView {
        UdevEventView {
            header: text::opt_view(self.header),
            properties: self.properties@.map_values(|value: String| value@),
        }
    }
}

impl UdevEventView {
    /// An event of which nothing has been read.
    pub open spec fn blank() -> UdevEventView {
        UdevEventView { header: None, properties: Map::empty() }
    }

    /// Something has been read of the event.
    pub open spec fn has_data(self) -> bool {
        self.header is Some || self.properties != Map::<Seq<char>, Seq<char>>::empty()
    }

    /// The value of a property.
    pub open spec fn property(self, name: Seq<char>) -> Option<Seq<char>> {
        if self.properties.contains_key(name) {
            Some(self.properties[name])
        } else {
            None
        }
    }

    /// The value of a property; empty where it is absent.
    pub open spec fn property_or_empty(self, name: Seq<char>) -> Seq<char> {
        text::text_or(self.property(name), Seq::empty())
    }

    /// The action that the header names.
    pub open spec fn named_in_header(self) -> Option<Seq<char>> {
        match self.header {
            Some(header) => header_action(header),
            None => None,
        }
    }

    /// The action of the event: the property `ACTION`, else what the header names, else `change`.
    pub open spec fn action(self) -> Seq<char> {
        match self.property("ACTION"@) {
            Some(action) => action,
            None => text::text_or(self.named_in_header(), "change"@),
        }
    }

    /// The device path of the event.
    pub open spec fn devpath(self) -> Option<Seq<char>> {
        self.property("DEVPATH"@)
    }

    /// A header is there, but neither it nor a property gives a known action, and no device is
    /// named.
    pub open spec fn is_malformed(self) -> bool {
        &&& self.header is Some
        &&& !(self.property("ACTION"@) matches Some(action) && is_known_action(action))
        &&& self.named_in_header() is None
        &&& self.devpath() is None
    }
}

/// An action that has a meaning for a device.
pub open spec fn is_known_action(action: Seq<char>) -> bool {
    ||| action == "add"@
    ||| action == "bind"@
    ||| action == "remove"@
    ||| action == "detach"@
    ||| action == "unbind"@
    ||| action == "change"@
}

/// Whether an action has a meaning for a device.
pub fn known_action(action: &str) -> (result: bool)
    ensures
        result == is_known_action(action@),
{
    same_text(action, "add") || same_text(action, "bind") || same_text(action, "remove")
        || same_text(action, "detach") || same_text(action, "unbind") || same_text(action, "change")
}

/// The action that a header names. One that contains another is looked for first: `unbind` before
/// `bind`.
pub open spec fn header_action(header: Seq<char>) -> Option<Seq<char>> {
    if text::occurs_in(header, "add"@) {
        Some("add"@)
    } else if text::occurs_in(header, "remove"@) {
        Some("remove"@)
    } else if text::occurs_in(header, "change"@) {
        Some("change"@)
    } else if text::occurs_in(header, "unbind"@) {
        Some("unbind"@)
    } else if text::occurs_in(header, "bind"@) {
        Some("bind"@)
    } else {
        None
    }
}

/// The action that a header names.
pub fn parse_action_from_header(header: &str) -> (action: Option<String>)
    ensures
        text::opt_view(action) == header_action(header@),
{
    if contains(header, "add") {
        Some("add".to_owned())
    } else if contains(header, "remove") {
        Some("remove".to_owned())
    } else if contains(header, "change") {
        Some("change".to_owned())
    } else if contains(header, "unbind") {
        Some("unbind".to_owned())
    } else if contains(header, "bind") {
        Some("bind".to_owned())
    } else {
        None
    }
}

/// A line that begins an event; the two legend lines of the monitor do not.
pub open spec fn is_header_line(line: Seq<char>) -> bool {
    &&& !text::has_prefix(line, "UDEV - "@)
    &&& !text::has_prefix(line, "KERNEL - "@)
    &&& text::has_prefix(line, "UDEV"@) || text::has_prefix(line, "KERNEL"@)
}

/// Whether a line begins an event.
pub fn is_udev_header(line: &str) -> (result: bool)
    ensures
        result == is_header_line(line@),
{
    if starts_with(line, "UDEV - ") || starts_with(line, "KERNEL - ") {
        return false;
    }
    starts_with(line, "UDEV") || starts_with(line, "KERNEL")
}

impl UdevEvent {
    /// An event of which nothing has been read.
    pub fn new() -> (event: Self)
        ensures
            event@ == UdevEventView::blank(),
    {
        let event = UdevEvent { header: None, properties: StringHashMap::new() };
        assert(event@ == UdevEventView::blank());
        event
    }

    /// Sets a property.
    pub fn set_property(&mut self, name: String, value: String)
        ensures
            final(self)@.header == old(self)@.header,
            final(self)@.properties == old(self)@.properties.insert(name@, value@),
    {
        self.properties.insert(name, value);
    }

    /// Whether something has been read of the event.
    pub fn has_data(&self) -> (result: bool)
        ensures
            result == self@.has_data(),
    {
        let empty = self.properties.is_empty();
        proof {
            if empty {
                assert(self@.properties == Map::<Seq<char>, Seq<char>>::empty());
            } else {
                assert(self@.properties.dom() == self.properties@.dom());
                if self@.properties == Map::<Seq<char>, Seq<char>>::empty() {
                    assert(self.properties@ == Map::<Seq<char>, String>::empty());
                }
            }
        }
        self.header.is_some() || !empty
    }

    /// The value of a property.
    pub fn property(&self, name: &str) -> (value: Option<&str>)
        ensures
            text::opt_str_view(value) == self@.property(name@),
    {
        match self.properties.get(name) {
            Some(value) => Some(value.as_str()),
            None => None,
        }
    }

    /// The action of the event.
    pub fn action(&self) -> (action: String)
        ensures
            action@ == self@.action(),
    {
        if let Some(action) = self.property("ACTION") {
            return action.to_owned();
        }
        if let Some(header) = as_opt_str(&self.header) {
            if let Some(action) = parse_action_from_header(header) {
                return action;
            }
        }
        "change".to_owned()
    }

    /// The device path of the event.
    pub fn devpath(&self) -> (devpath: Option<&str>)
        ensures
            text::opt_str_view(devpath) == self@.devpath(),
    {
        self.property("DEVPATH")
    }

    /// Whether a header is there, but neither a known action nor a device can be made out.
    pub fn is_malformed(&self) -> (result: bool)
        ensures
            result == self@.is_malformed(),
    {
        let acts = match self.property("ACTION") {
            Some(action) => known_action(action),
            None => false,
        };
        match as_opt_str(&self.header) {
            Some(header) => !acts && parse_action_from_header(header).is_none()
                && self.devpath().is_none(),
            None => false,
        }
    }
}

impl Default for UdevEvent {
    fn default() -> (event: Self)
        ensures
            event@ == UdevEventView::blank(),
    {
        UdevEvent::new()
    }
}

/// What one line of the monitor does to the event being read: the event afterwards, and the event
/// that the line completes.
pub open spec fn line_step(event: UdevEventView, line: Seq<char>) -> (
    UdevEventView,
    Option<UdevEventView>,
) {
    let content = text::trimmed_end(line);
    let completed = if event.has_data() {
        Some(event)
    } else {
        None
    };
    if content.len() == 0 {
        (UdevEventView::blank(), completed)
    } else if is_header_line(content) {
        (UdevEventView { header: Some(content), properties: Map::empty() }, completed)
    } else {
        match text::cut_once(content, '=') {
            Some((name, value)) => (
                UdevEventView {
                    properties: event.properties.insert(text::trimmed(name), text::trimmed(value)),
                    ..event
                },
                None,
            ),
            None => (event, None),
        }
    }
}

/// Reads one line of the monitor into `event`; returns the event that the line completes.
pub fn feed_line(event: &mut UdevEvent, line: &str) -> (completed: Option<UdevEvent>)
    ensures
        final(event)@ == line_step(old(event)@, line@).0,
        match completed {
            Some(done) => line_step(old(event)@, line@).1 == Some(done@),
            None => line_step(old(event)@, line@).1 is None,
        },
{
    let content = trim_end(line);
    if content.as_str().is_empty() || is_udev_header(content.as_str()) {
        let had_data = event.has_data();
        let mut next = UdevEvent::new();
        if !content.as_str().is_empty() {
            next.header = Some(content);
            assert(next@.properties == Map::<Seq<char>, Seq<char>>::empty());
        }
        core::mem::swap(event, &mut next);
        if had_data {
            Some(next)
        } else {
            None
        }
    } else {
        if let Some((name, value)) = split_once(content.as_str(), '=') {
            event.set_property(trim(name.as_str()), trim(value.as_str()));
        }
        None
    }
}

/// Takes what is left of the stream: the event being read, where there is one.
pub fn finish(event: UdevEvent) -> (last: Option<UdevEvent>)
    ensures
        match last {
            Some(done) => event@.has_data() && done@ == event@,
            None => !event@.has_data(),
        },
{
    if event.has_data() {
        Some(event)
    } else {
        None
    }
}

/// The events that a stream of lines completes, and the event that it leaves unfinished, when
/// reading starts at `event`.
pub open spec fn read_lines(event: UdevEventView, lines: Seq<Seq<char>>) -> (
    UdevEventView,
    Seq<UdevEventView>,
)
    decreases lines.len(),
{
    if lines.len() == 0 {
        (event, Seq::empty())
    } else {
        let (before, done) = read_lines(event, lines.drop_last());
        let (after, completed) = line_step(before, lines.last());
        match completed {
            Some(one) => (after, done.push(one)),
            None => (after, done),
        }
    }
}

/// The line `name=value`.
pub open spec fn property_line(name: Seq<char>, value: Seq<char>) -> Seq<char> {
    name + seq!['='] + value
}

/// A name or a value that trimming leaves as it is: no white space stands at its ends.
pub open spec fn is_plain(s: Seq<char>) -> bool {
    s.len() > 0 ==> !text::is_white_space(s.first()) && !text::is_white_space(s.last())
}

/// A property line sets its property, and completes nothing.
pub proof fn lemma_property_line(event: UdevEventView, name: Seq<char>, value: Seq<char>)
    requires
        is_plain(name),
        is_plain(value),
        !name.contains('='),
        !is_header_line(property_line(name, value)),
    ensures
        line_step(event, property_line(name, value)) == (
            UdevEventView { properties: event.properties.insert(name, value), ..event },
            None::<UdevEventView>,
        ),
{
    let line = property_line(name, value);
    assert(line.len() > 0);
    assert(line.last() == if value.len() > 0 {
        value.last()
    } else {
        '='
    });
    assert(text::trimmed_end(line) == line);
    text::lemma_cut_once(line, '=', name.len() as int);
    assert(line.subrange(0, name.len() as int) == name);
    assert(line.subrange(name.len() as int + 1, line.len() as int) == value);
}

/// The lines of a list of properties.
pub open spec fn property_lines(properties: Seq<(Seq<char>, Seq<char>)>) -> Seq<Seq<char>> {
    properties.map_values(|p: (Seq<char>, Seq<char>)| property_line(p.0, p.1))
}

/// The properties that a list sets; of two with one name the later stays.
pub open spec fn properties_of(properties: Seq<(Seq<char>, Seq<char>)>) -> Map<
    Seq<char>,
    Seq<char>,
>
    decreases properties.len(),
{
    if properties.len() == 0 {
        Map::empty()
    } else {
        properties_of(properties.drop_last()).insert(properties.last().0, properties.last().1)
    }
}

/// A property that can be written as a line and read back.
pub open spec fn is_readable(property: (Seq<char>, Seq<char>)) -> bool {
    &&& is_plain(property.0)
    &&& is_plain(property.1)
    &&& !property.0.contains('=')
    &&& !is_header_line(property_line(property.0, property.1))
}

/// A header line and the property lines behind it build up one event.
proof fn lemma_open_block(header: Seq<char>, properties: Seq<(Seq<char>, Seq<char>)>)
    requires
        is_header_line(header),
        text::trimmed_end(header) == header,
        forall|i: int| 0 <= i < properties.len() ==> is_readable(#[trigger] properties[i]),
    ensures
        read_lines(UdevEventView::blank(), seq![header] + property_lines(properties)) == (
            UdevEventView { header: Some(header), properties: properties_of(properties) },
            Seq::<UdevEventView>::empty(),
        ),
    decreases properties.len(),
{
    let lines = seq![header] + property_lines(properties);
    if properties.len() == 0 {
        lemma_header_not_empty(header);
        assert(lines.drop_last() == Seq::<Seq<char>>::empty());
        assert(lines.last() == header);
        assert(read_lines(UdevEventView::blank(), lines.drop_last()) == (
            UdevEventView::blank(),
            Seq::<UdevEventView>::empty(),
        ));
    } else {
        let last = properties.last();
        assert(lines.drop_last() == seq![header] + property_lines(properties.drop_last()));
        assert(lines.last() == property_line(last.0, last.1));
        assert(is_readable(properties[properties.len() - 1]));
        lemma_open_block(header, properties.drop_last());
        lemma_property_line(
            UdevEventView {
                header: Some(header),
                properties: properties_of(properties.drop_last()),
            },
            last.0,
            last.1,
        );
    }
}

/// A block of the monitor, a header line, property lines and a blank line, is read as one event
/// that holds just that.
pub proof fn lemma_block_is_one_event(
    header: Seq<char>,
    properties: Seq<(Seq<char>, Seq<char>)>,
    blank: Seq<char>,
)
    requires
        is_header_line(header),
        text::trimmed_end(header) == header,
        forall|i: int| 0 <= i < properties.len() ==> is_readable(#[trigger] properties[i]),
        text::trimmed_end(blank).len() == 0,
    ensures
        read_lines(
            UdevEventView::blank(),
            (seq![header] + property_lines(properties)).push(blank),
        ) == (
            UdevEventView::blank(),
            seq![UdevEventView { header: Some(header), properties: properties_of(properties) }],
        ),
{
    let lines = (seq![header] + property_lines(properties)).push(blank);
    lemma_open_block(header, properties);
    assert(lines.drop_last() == seq![header] + property_lines(properties));
    assert(lines.last() == blank);
    let done = UdevEventView { header: Some(header), properties: properties_of(properties) };
    assert(Seq::<UdevEventView>::empty().push(done) == seq![done]);
}

/// A header line is not empty.
proof fn lemma_header_not_empty(line: Seq<char>)
    requires
        is_header_line(line),
    ensures
        line.len() > 0,
{
    reveal_strlit("UDEV");
    reveal_strlit("KERNEL");
}

/// Each of the documented actions, where a header names it and none that is looked for before, is
/// the action of the header; `unbind` is never taken for `bind`.
pub proof fn lemma_header_actions(header: Seq<char>)
    requires
        !text::occurs_in(header, "add"@),
        !text::occurs_in(header, "remove"@),
        !text::occurs_in(header, "change"@),
    ensures
        text::occurs_in(header, "unbind"@) ==> header_action(header) == Some("unbind"@),
        header_action(header) == Some("bind"@) ==> !text::occurs_in(header, "unbind"@),
{
    reveal_strlit("unbind");
    reveal_strlit("bind");
    assert("unbind"@.len() != "bind"@.len());
}

} // verus!
