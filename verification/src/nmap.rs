//! The XML that nmap writes, read as a stream of events: hosts with their
//! addresses, names and ports become assets, open ports become findings.

use crate::artifact::{Asset, AssetView, Finding, FindingView, ScanArtifacts, ScanView};
use crate::command::{lossy_text, utf8_lossy};
use crate::json::{Json, JsonView};
use crate::text::{
    append, append_str, chars_of, decimal, decimal_text, digit, is_digit, same_str, string_of,
};
use quick_xml::events::Event;
use vstd::prelude::*;

verus! {

// ---------------------------------------------------------------------------
// Events
// ---------------------------------------------------------------------------

/// One event of the XML reader, with names and values as text. An attribute
/// that the reader could not read is `None`.
#[derive(Debug)]
pub enum XmlEvent {
    /// A start tag, or an empty-element tag where `empty` holds.
    Element { empty: bool, name: String, attributes: Vec<Option<(String, String)>> },
    /// An end tag.
    End { name: String },
    /// The end of the document.
    Eof,
    /// Text, a comment, a declaration or the like.
    Other,
    /// The reader's error, as text.
    Failed(String),
}

/// The mathematical value of an `XmlEvent`.
pub enum XmlToken {
    Element { empty: bool, name: Seq<char>, attributes: Seq<Option<(Seq<char>, Seq<char>)>> },
    End { name: Seq<char> },
    Eof,
    Other,
    Failed(Seq<char>),
}

impl DeepView for XmlEvent {
    type V = XmlToken;

    open spec fn deep_view(&self) -> XmlToken {
        match self {
            XmlEvent::Element { empty, name, attributes } => XmlToken::Element {
                empty: *empty,
                name: name@,
                attributes: attributes.deep_view(),
            },
            XmlEvent::End { name } => XmlToken::End { name: name@ },
            XmlEvent::Eof => XmlToken::Eof,
            XmlEvent::Other => XmlToken::Other,
            XmlEvent::Failed(message) => XmlToken::Failed(message@),
        }
    }
}

/// `quick_xml::Reader`: of a reader the library knows the events that it has
/// yet to give, and nothing else.
#[verifier::external_type_specification]
#[verifier::external_body]
#[verifier::reject_recursive_types(R)]
pub struct ExXmlReader<R>(quick_xml::Reader<R>);

/// The events that a `quick_xml` reader with trimmed text gives for a
/// document when it is asked again and again, up to and with the first
/// `Eof`. A failure is an event among them, and others may follow it.
pub uninterp spec fn xml_events(xml: Seq<u8>) -> Seq<XmlToken>;

/// The events that a reader has yet to give.
pub uninterp spec fn pending_events(reader: quick_xml::Reader<&[u8]>) -> Seq<XmlToken>;

/// `Reader::from_reader` with `Config::trim_text(true)`: a reader at the
/// start of the document.
#[verifier::external_body]
pub(crate) fn open_reader<'a>(xml: &'a [u8]) -> (r: quick_xml::Reader<&'a [u8]>)
    ensures
        pending_events(r) == xml_events(xml@),
{
    let mut reader = quick_xml::Reader::from_reader(xml);
    reader.config_mut().trim_text(true);
    reader
}

/// `Reader::read_event_into`: the next event, which is then no longer to
/// come. Once the reader has given `Eof`, it gives `Eof` for ever. Names and
/// values are handed over as text, an attribute that the reader could not
/// read as `None`, a failure as its message.
#[verifier::external_body]
pub(crate) fn next_event(reader: &mut quick_xml::Reader<&[u8]>) -> (r: XmlEvent)
    ensures
        pending_events(*old(reader)).len() == 0 ==> r.deep_view() == XmlToken::Eof
            && pending_events(*final(reader)).len() == 0,
        pending_events(*old(reader)).len() > 0 ==> r.deep_view() == pending_events(*old(reader))[0]
            && pending_events(*final(reader)) == pending_events(*old(reader)).skip(1),
{
    let mut buf = Vec::new();
    let event = reader.read_event_into(&mut buf);
    let empty = matches!(event, Ok(Event::Empty(_)));
    match event {
        Ok(Event::Start(e) | Event::Empty(e)) => XmlEvent::Element {
            empty,
            name: e.name().0.to_string(),
            attributes: e.attributes().map(|a| a.ok().map(|a| (a.key.0.to_string(), a.value.into_owned()))).collect(),
        },
        Ok(Event::End(e)) => XmlEvent::End { name: e.name().0.to_string() },
        Ok(Event::Eof) => XmlEvent::Eof,
        Ok(_) => XmlEvent::Other,
        Err(err) => XmlEvent::Failed(err.to_string()),
    }
}

// ---------------------------------------------------------------------------
// Attributes
// ---------------------------------------------------------------------------

/// The value of the last attribute `key` from index `i` on, or `found`.
pub open spec fn last_value(
    attributes: Seq<Option<(Seq<char>, Seq<char>)>>,
    key: Seq<char>,
    i: int,
    found: Option<Seq<char>>,
) -> Option<Seq<char>>
    decreases attributes.len() - i,
{
    if i < 0 || i >= attributes.len() {
        found
    } else {
        last_value(
            attributes,
            key,
            i + 1,
            match attributes[i] {
                Some((k, v)) => if k == key {
                    Some(v)
                } else {
                    found
                },
                None => found,
            },
        )
    }
}

/// The value of the last attribute `key`.
pub open spec fn attribute(attributes: Seq<Option<(Seq<char>, Seq<char>)>>, key: Seq<char>)
    -> Option<Seq<char>> {
    last_value(attributes, key, 0, None)
}

/// The value of the last attribute `key`.
pub fn attribute_value(attributes: &Vec<Option<(String, String)>>, key: &str) -> (r: Option<String>)
    ensures
        r.deep_view() == attribute(attributes.deep_view(), key@),
{
    let mut found: Option<String> = None;
    let mut i: usize = 0;
    while i < attributes.len()
        invariant
            i <= attributes.len(),
            attribute(attributes.deep_view(), key@) == last_value(
                attributes.deep_view(),
                key@,
                i as int,
                found.deep_view(),
            ),
        decreases attributes.len() - i,
    {
        assert(attributes.deep_view()[i as int] == attributes[i as int].deep_view());
        match &attributes[i] {
            Some(pair) => {
                if same_str(&chars_of(pair.0.as_str()), key) {
                    found = Some(pair.1.clone());
                }
            },
            None => {},
        }
        i += 1;
    }
    found
}

/// The values of the attributes `key` from index `i` on, behind `done`.
pub open spec fn values_from(
    attributes: Seq<Option<(Seq<char>, Seq<char>)>>,
    key: Seq<char>,
    i: int,
    done: Seq<Seq<char>>,
) -> Seq<Seq<char>>
    decreases attributes.len() - i,
{
    if i < 0 || i >= attributes.len() {
        done
    } else {
        values_from(
            attributes,
            key,
            i + 1,
            match attributes[i] {
                Some((k, v)) => if k == key {
                    done.push(v)
                } else {
                    done
                },
                None => done,
            },
        )
    }
}

/// Puts the values of the attributes `key` behind `out`.
pub fn attribute_values(attributes: &Vec<Option<(String, String)>>, key: &str, out: &mut Vec<String>)
    ensures
        final(out).deep_view() == values_from(
            attributes.deep_view(),
            key@,
            0,
            old(out).deep_view(),
        ),
{
    let mut i: usize = 0;
    while i < attributes.len()
        invariant
            i <= attributes.len(),
            values_from(attributes.deep_view(), key@, 0, old(out).deep_view()) == values_from(
                attributes.deep_view(),
                key@,
                i as int,
                out.deep_view(),
            ),
        decreases attributes.len() - i,
    {
        assert(attributes.deep_view()[i as int] == attributes[i as int].deep_view());
        match &attributes[i] {
            Some(pair) => {
                if same_str(&chars_of(pair.0.as_str()), key) {
                    let value = pair.1.clone();
                    let ghost before = out.deep_view();
                    out.push(value);
                    assert(out.deep_view() =~= before.push(value@));
                }
            },
            None => {},
        }
        i += 1;
    }
}

/// The value of a decimal digit.
pub open spec fn digit_value(c: char) -> int {
    if c == '0' {
        0
    } else if c == '1' {
        1
    } else if c == '2' {
        2
    } else if c == '3' {
        3
    } else if c == '4' {
        4
    } else if c == '5' {
        5
    } else if c == '6' {
        6
    } else if c == '7' {
        7
    } else if c == '8' {
        8
    } else {
        9
    }
}

/// The value of a decimal digit.
pub fn digit_of(c: char) -> (r: u32)
    ensures
        r == digit_value(c),
        r <= 9,
{
    if c == '0' {
        0
    } else if c == '1' {
        1
    } else if c == '2' {
        2
    } else if c == '3' {
        3
    } else if c == '4' {
        4
    } else if c == '5' {
        5
    } else if c == '6' {
        6
    } else if c == '7' {
        7
    } else if c == '8' {
        8
    } else {
        9
    }
}

/// The number that the digits from index `i` on continue from `so_far`;
/// nothing where a character is no digit or the number passes 65535.
pub open spec fn port_digits(s: Seq<char>, i: int, so_far: int) -> Option<int>
    decreases s.len() - i,
{
    if i < 0 || i >= s.len() {
        Some(so_far)
    } else if !is_digit(s[i]) || so_far * 10 + digit_value(s[i]) > 65535 {
        None
    } else {
        port_digits(s, i + 1, so_far * 10 + digit_value(s[i]))
    }
}

/// The port number that a text denotes: digits, behind a `+` or not, that
/// make a number up to 65535.
pub open spec fn port_of(s: Seq<char>) -> Option<int> {
    let from: int = if s.len() > 0 && s[0] == '+' {
        1
    } else {
        0
    };
    if s.len() <= from {
        None
    } else {
        port_digits(s, from, 0)
    }
}

/// The port number that a text denotes.
pub fn parse_port(text: &str) -> (r: Option<u16>)
    ensures
        match r {
            Some(p) => port_of(text@) == Some(p as int),
            None => port_of(text@) is None,
        },
{
    let s = chars_of(text);
    let from: usize = if s.len() > 0 && s[0] == '+' {
        1
    } else {
        0
    };
    if s.len() <= from {
        return None;
    }
    let mut value: u32 = 0;
    let mut i: usize = from;
    while i < s.len()
        invariant
            from <= i <= s.len(),
            value <= 65535,
            port_of(text@) == port_digits(s@, i as int, value as int),
        decreases s.len() - i,
    {
        if !digit(s[i]) {
            return None;
        }
        let next = value * 10 + digit_of(s[i]);
        if next > 65535 {
            return None;
        }
        value = next;
        i += 1;
    }
    Some(value as u16)
}

/// The port number of the last attribute `portid` that denotes one, from
/// index `i` on, or `found`.
pub open spec fn last_port(
    attributes: Seq<Option<(Seq<char>, Seq<char>)>>,
    i: int,
    found: Option<u16>,
) -> Option<u16>
    decreases attributes.len() - i,
{
    if i < 0 || i >= attributes.len() {
        found
    } else {
        last_port(
            attributes,
            i + 1,
            match attributes[i] {
                Some((k, v)) => if k == "portid"@ {
                    match port_of(v) {
                        Some(p) => Some(p as u16),
                        None => found,
                    }
                } else {
                    found
                },
                None => found,
            },
        )
    }
}

/// The port number of the last attribute `portid` that denotes one.
pub fn port_attribute(attributes: &Vec<Option<(String, String)>>) -> (r: Option<u16>)
    ensures
        r == last_port(attributes.deep_view(), 0, None),
{
    let mut found: Option<u16> = None;
    let mut i: usize = 0;
    while i < attributes.len()
        invariant
            i <= attributes.len(),
            last_port(attributes.deep_view(), 0, None) == last_port(
                attributes.deep_view(),
                i as int,
                found,
            ),
        decreases attributes.len() - i,
    {
        assert(attributes.deep_view()[i as int] == attributes[i as int].deep_view());
        match &attributes[i] {
            Some(pair) => {
                if same_str(&chars_of(pair.0.as_str()), "portid") {
                    match parse_port(pair.1.as_str()) {
                        Some(p) => {
                            found = Some(p);
                        },
                        None => {},
                    }
                }
            },
            None => {},
        }
        i += 1;
    }
    found
}

// ---------------------------------------------------------------------------
// Hosts and ports while reading
// ---------------------------------------------------------------------------

/// A port while it is read.
#[derive(Debug)]
pub struct PortBuilder {
    pub port: Option<u16>,
    pub protocol: Option<String>,
    pub state: Option<String>,
    pub service: Option<String>,
}

/// The mathematical value of a `PortBuilder`.
pub struct PortDraft {
    pub port: Option<u16>,
    pub protocol: Option<Seq<char>>,
    pub state: Option<Seq<char>>,
    pub service: Option<Seq<char>>,
}

impl DeepView for PortBuilder {
    type V = PortDraft;

    open spec fn deep_view(&self) -> PortDraft {
        PortDraft {
            port: self.port,
            protocol: self.protocol.deep_view(),
            state: self.state.deep_view(),
            service: self.service.deep_view(),
        }
    }
}

/// A host while it is read: its addresses with their kinds, its names and its
/// ports.
#[derive(Debug)]
pub struct HostBuilder {
    pub addresses: Vec<(String, String)>,
    pub hostnames: Vec<String>,
    pub ports: Vec<PortBuilder>,
}

/// The mathematical value of a `HostBuilder`.
pub struct HostDraft {
    pub addresses: Seq<(Seq<char>, Seq<char>)>,
    pub hostnames: Seq<Seq<char>>,
    pub ports: Seq<PortDraft>,
}

impl DeepView for HostBuilder {
    type V = HostDraft;

    open spec fn deep_view(&self) -> HostDraft {
        HostDraft {
            addresses: self.addresses.deep_view(),
            hostnames: self.hostnames.deep_view(),
            ports: self.ports.deep_view(),
        }
    }
}

/// What was read so far: the hosts that were closed, the host and the port
/// that are open.
pub struct Reading {
    pub hosts: Vec<HostBuilder>,
    pub host: Option<HostBuilder>,
    pub port: Option<PortBuilder>,
}

/// The mathematical value of a `Reading`.
pub struct ReadingView {
    pub hosts: Seq<HostDraft>,
    pub host: Option<HostDraft>,
    pub port: Option<PortDraft>,
}

impl DeepView for Reading {
    type V = ReadingView;

    open spec fn deep_view(&self) -> ReadingView {
        ReadingView {
            hosts: self.hosts.deep_view(),
            host: self.host.deep_view(),
            port: self.port.deep_view(),
        }
    }
}

/// A host of which nothing is known yet.
pub open spec fn empty_host() -> HostDraft {
    HostDraft { addresses: Seq::empty(), hostnames: Seq::empty(), ports: Seq::empty() }
}

/// What was read before the first event.
pub open spec fn no_reading() -> ReadingView {
    ReadingView { hosts: Seq::empty(), host: None, port: None }
}

/// The host with the address of an `address` tag, if the tag names one; its
/// kind is `unknown` where the tag names none.
pub open spec fn with_address(host: HostDraft, attributes: Seq<Option<(Seq<char>, Seq<char>)>>)
    -> HostDraft {
    match attribute(attributes, "addr"@) {
        Some(address) => HostDraft {
            addresses: host.addresses.push(
                (
                    address,
                    match attribute(attributes, "addrtype"@) {
                        Some(kind) => kind,
                        None => "unknown"@,
                    },
                ),
            ),
            ..host
        },
        None => host,
    }
}

/// What the opening of an element changes. `host` opens a host; `address`
/// and `hostname` add to the open host; `port` opens a port; `state` and
/// `service` add to the open port.
pub open spec fn after_start(
    reading: ReadingView,
    name: Seq<char>,
    attributes: Seq<Option<(Seq<char>, Seq<char>)>>,
) -> ReadingView {
    if name == "address"@ {
        match reading.host {
            Some(host) => ReadingView { host: Some(with_address(host, attributes)), ..reading },
            None => reading,
        }
    } else if name == "hostname"@ {
        match reading.host {
            Some(host) => ReadingView {
                host: Some(
                    HostDraft {
                        hostnames: values_from(attributes, "name"@, 0, host.hostnames),
                        ..host
                    },
                ),
                ..reading
            },
            None => reading,
        }
    } else if name == "host"@ {
        ReadingView { host: Some(empty_host()), ..reading }
    } else if name == "port"@ {
        ReadingView {
            port: Some(
                PortDraft {
                    port: last_port(attributes, 0, None),
                    protocol: attribute(attributes, "protocol"@),
                    state: None,
                    service: None,
                },
            ),
            ..reading
        }
    } else if name == "state"@ {
        match reading.port {
            Some(port) => ReadingView {
                port: Some(
                    PortDraft {
                        state: match attribute(attributes, "state"@) {
                            Some(state) => Some(state),
                            None => port.state,
                        },
                        ..port
                    },
                ),
                ..reading
            },
            None => reading,
        }
    } else if name == "service"@ {
        match reading.port {
            Some(port) => ReadingView {
                port: Some(
                    PortDraft {
                        service: match attribute(attributes, "name"@) {
                            Some(service) => Some(service),
                            None => port.service,
                        },
                        ..port
                    },
                ),
                ..reading
            },
            None => reading,
        }
    } else {
        reading
    }
}

/// What an end tag changes: `port` closes the open port, which goes to the
/// open host if there is one; `host` closes the open host.
pub open spec fn after_end(reading: ReadingView, name: Seq<char>) -> ReadingView {
    if name == "port"@ {
        match (reading.host, reading.port) {
            (Some(host), Some(port)) => ReadingView {
                host: Some(HostDraft { ports: host.ports.push(port), ..host }),
                port: None,
                ..reading
            },
            _ => ReadingView { port: None, ..reading },
        }
    } else if name == "host"@ {
        match reading.host {
            Some(host) => ReadingView { hosts: reading.hosts.push(host), host: None, ..reading },
            None => reading,
        }
    } else {
        reading
    }
}

/// What a start tag or an empty-element tag changes. A start tag opens its
/// element. An empty-element tag opens its element and closes it at once, so
/// that `<state state="open"/>` adds to the open port as `<state
/// state="open"></state>` does.
pub open spec fn after_element(
    reading: ReadingView,
    empty: bool,
    name: Seq<char>,
    attributes: Seq<Option<(Seq<char>, Seq<char>)>>,
) -> ReadingView {
    if empty {
        after_end(after_start(reading, name, attributes), name)
    } else {
        after_start(reading, name, attributes)
    }
}

/// The hosts of a document: what the events up to the end of the document
/// leave, or the message of the first failure.
pub open spec fn hosts_of(events: Seq<XmlToken>, reading: ReadingView) -> Result<
    Seq<HostDraft>,
    Seq<char>,
>
    decreases events.len(),
{
    if events.len() == 0 {
        Ok(reading.hosts)
    } else {
        match events[0] {
            XmlToken::Eof => Ok(reading.hosts),
            XmlToken::Failed(message) => Err("XML parsing error: "@ + message),
            XmlToken::Other => hosts_of(events.skip(1), reading),
            XmlToken::End { name } => hosts_of(events.skip(1), after_end(reading, name)),
            XmlToken::Element { empty, name, attributes } => hosts_of(
                events.skip(1),
                after_element(reading, empty, name, attributes),
            ),
        }
    }
}

impl Reading {
    /// What was read before the first event.
    pub fn new() -> (r: Reading)
        ensures
            r.deep_view() == no_reading(),
    {
        let r = Reading { hosts: Vec::new(), host: None, port: None };
        assert(r.hosts.deep_view() =~= Seq::empty());
        r
    }

    /// Takes up a start tag or an empty-element tag.
    pub fn element(&mut self, empty: bool, name: &String, attributes: &Vec<Option<(String, String)>>)
        ensures
            final(self).deep_view() == after_element(
                old(self).deep_view(),
                empty,
                name@,
                attributes.deep_view(),
            ),
    {
        self.start(name, attributes);
        if empty {
            self.end(name);
        }
    }

    /// Takes up the opening of an element.
    pub fn start(&mut self, name: &String, attributes: &Vec<Option<(String, String)>>)
        ensures
            final(self).deep_view() == after_start(
                old(self).deep_view(),
                name@,
                attributes.deep_view(),
            ),
    {
        let tag = chars_of(name.as_str());
        if same_str(&tag, "address") {
            match &mut self.host {
                Some(host) => {
                    match attribute_value(attributes, "addr") {
                        Some(address) => {
                            let kind = match attribute_value(attributes, "addrtype") {
                                Some(kind) => kind,
                                None => String::from_str("unknown"),
                            };
                            let ghost before = host.addresses.deep_view();
                            host.addresses.push((address, kind));
                            assert(host.addresses.deep_view() =~= before.push((address@, kind@)));
                        },
                        None => {},
                    }
                },
                None => {},
            }
        } else if same_str(&tag, "hostname") {
            match &mut self.host {
                Some(host) => {
                    attribute_values(attributes, "name", &mut host.hostnames);
                },
                None => {},
            }
        } else if same_str(&tag, "host") {
            let host = HostBuilder {
                addresses: Vec::new(),
                hostnames: Vec::new(),
                ports: Vec::new(),
            };
            assert(host.addresses.deep_view() =~= Seq::empty());
            assert(host.hostnames.deep_view() =~= Seq::empty());
            assert(host.ports.deep_view() =~= Seq::empty());
            self.host = Some(host);
        } else if same_str(&tag, "port") {
            self.port = Some(
                PortBuilder {
                    port: port_attribute(attributes),
                    protocol: attribute_value(attributes, "protocol"),
                    state: None,
                    service: None,
                },
            );
        } else if same_str(&tag, "state") {
            match &mut self.port {
                Some(port) => {
                    match attribute_value(attributes, "state") {
                        Some(state) => {
                            port.state = Some(state);
                        },
                        None => {},
                    }
                },
                None => {},
            }
        } else if same_str(&tag, "service") {
            match &mut self.port {
                Some(port) => {
                    match attribute_value(attributes, "name") {
                        Some(service) => {
                            port.service = Some(service);
                        },
                        None => {},
                    }
                },
                None => {},
            }
        }
    }

    /// Takes up an end tag.
    pub fn end(&mut self, name: &String)
        ensures
            final(self).deep_view() == after_end(old(self).deep_view(), name@),
    {
        let tag = chars_of(name.as_str());
        if same_str(&tag, "port") {
            let port = self.port.take();
            match (&mut self.host, port) {
                (Some(host), Some(port)) => {
                    let ghost before = host.ports.deep_view();
                    let ghost view = port.deep_view();
                    host.ports.push(port);
                    assert(host.ports.deep_view() =~= before.push(view));
                },
                _ => {},
            }
        } else if same_str(&tag, "host") {
            match self.host.take() {
                Some(host) => {
                    let ghost before = self.hosts.deep_view();
                    let ghost view = host.deep_view();
                    self.hosts.push(host);
                    assert(self.hosts.deep_view() =~= before.push(view));
                },
                None => {},
            }
        }
    }
}

/// The hosts that a list of events leaves.
pub fn hosts_from_events(events: &Vec<XmlEvent>) -> (r: Result<Vec<HostBuilder>, String>)
    ensures
        match r {
            Ok(hosts) => hosts_of(events.deep_view(), no_reading()) == Ok::<
                Seq<HostDraft>,
                Seq<char>,
            >(hosts.deep_view()),
            Err(e) => hosts_of(events.deep_view(), no_reading()) == Err::<
                Seq<HostDraft>,
                Seq<char>,
            >(e@),
        },
{
    let mut reading = Reading::new();
    let mut i: usize = 0;
    assert(events.deep_view().skip(0) =~= events.deep_view());
    while i < events.len()
        invariant
            i <= events.len(),
            hosts_of(events.deep_view(), no_reading()) == hosts_of(
                events.deep_view().skip(i as int),
                reading.deep_view(),
            ),
        decreases events.len() - i,
    {
        assert(events.deep_view().skip(i as int)[0] == events[i as int].deep_view());
        assert(events.deep_view().skip(i as int).skip(1) =~= events.deep_view().skip(i + 1));
        match &events[i] {
            XmlEvent::Eof => {
                return Ok(reading.hosts);
            },
            XmlEvent::Failed(message) => {
                let mut out = chars_of("XML parsing error: ");
                append_str(&mut out, message.as_str());
                return Err(string_of(&out));
            },
            XmlEvent::Other => {},
            XmlEvent::End { name } => {
                reading.end(name);
            },
            XmlEvent::Element { empty, name, attributes } => {
                reading.element(*empty, name, attributes);
            },
        }
        i += 1;
    }
    Ok(reading.hosts)
}

/// The hosts of a document.
pub fn read_hosts(xml: &[u8]) -> (r: Result<Vec<HostBuilder>, String>)
    ensures
        match r {
            Ok(hosts) => hosts_of(xml_events(xml@), no_reading()) == Ok::<
                Seq<HostDraft>,
                Seq<char>,
            >(hosts.deep_view()),
            Err(e) => hosts_of(xml_events(xml@), no_reading()) == Err::<Seq<HostDraft>, Seq<char>>(
                e@,
            ),
        },
{
    let mut reader = open_reader(xml);
    let mut reading = Reading::new();
    loop
        invariant
            hosts_of(xml_events(xml@), no_reading()) == hosts_of(
                pending_events(reader),
                reading.deep_view(),
            ),
        decreases pending_events(reader).len(),
    {
        let event = next_event(&mut reader);
        match event {
            XmlEvent::Eof => {
                return Ok(reading.hosts);
            },
            XmlEvent::Failed(message) => {
                let mut out = chars_of("XML parsing error: ");
                append_str(&mut out, message.as_str());
                return Err(string_of(&out));
            },
            XmlEvent::Other => {},
            XmlEvent::End { name } => {
                reading.end(&name);
            },
            XmlEvent::Element { empty, name, attributes } => {
                reading.element(empty, &name, &attributes);
            },
        }
    }
}

// ---------------------------------------------------------------------------
// Assets and findings
// ---------------------------------------------------------------------------

/// What `{:?}` writes for the name of a service that may be absent.
pub uninterp spec fn service_debug(service: Option<Seq<char>>) -> Seq<char>;

/// `format!("{:?}", ..)` on an `Option<String>`: `None`, or `Some(..)` around
/// the string in quotes with its special characters escaped; it depends on
/// the value alone.
#[verifier::external_body]
pub(crate) fn debug_service(service: &Option<String>) -> (r: String)
    ensures
        r@ == service_debug(service.deep_view()),
{
    format!("{:?}", service)
}

/// The addresses of a host, without their kinds.
pub open spec fn addresses_of(host: HostDraft) -> Seq<Seq<char>> {
    Seq::new(host.addresses.len(), |i: int| host.addresses[i].0)
}

/// The identifier of the asset at an address.
pub open spec fn asset_id(address: Seq<char>) -> Seq<char> {
    "asset://host/"@ + address
}

/// The asset that a host with an address makes.
pub open spec fn asset_of(host: HostDraft) -> AssetView {
    AssetView {
        id: asset_id(host.addresses[0].0),
        addresses: addresses_of(host),
        hostnames: host.hostnames,
        labels: Seq::empty(),
    }
}

/// Whether the state of a port is `open`.
pub open spec fn is_open(port: PortDraft) -> bool {
    port.state == Some("open"@)
}

/// The number of a port; 0 where none was read.
pub open spec fn port_number(port: PortDraft) -> u16 {
    match port.port {
        Some(p) => p,
        None => 0,
    }
}

/// The protocol of a port; `tcp` where none was read.
pub open spec fn port_protocol(port: PortDraft) -> Seq<char> {
    match port.protocol {
        Some(p) => p,
        None => "tcp"@,
    }
}

/// What is on record for an open port: its number, its service if it has a
/// name, and its state.
pub open spec fn evidence_of(port: PortDraft) -> Seq<(Seq<char>, JsonView)> {
    let number = seq![("port"@, JsonView::Integer(port_number(port) as int))];
    let service = match port.service {
        Some(s) => seq![("service"@, JsonView::Text(s))],
        None => Seq::empty(),
    };
    number + service + seq![("state"@, JsonView::Text("open"@))]
}

/// The finding that an open port at an address makes.
pub open spec fn finding_of(address: Seq<char>, port: PortDraft) -> FindingView {
    let number = decimal(port_number(port) as nat);
    let protocol = port_protocol(port);
    FindingView {
        id: "finding://"@ + address + "/"@ + protocol + "-"@ + number,
        asset_id: asset_id(address),
        port: port_number(port),
        protocol,
        state: "open"@,
        service: port.service,
        title: address + ":"@ + number + " "@ + protocol + " open"@,
        description: "Port "@ + number + " "@ + protocol + " is open on asset "@ + address
            + " with service "@ + service_debug(port.service),
        severity: "informational"@,
        evidence: evidence_of(port),
    }
}

/// The findings of the ports from index `i` on, behind `done`.
pub open spec fn findings_from(
    address: Seq<char>,
    ports: Seq<PortDraft>,
    i: int,
    done: Seq<FindingView>,
) -> Seq<FindingView>
    decreases ports.len() - i,
{
    if i < 0 || i >= ports.len() {
        done
    } else {
        findings_from(
            address,
            ports,
            i + 1,
            if is_open(ports[i]) {
                done.push(finding_of(address, ports[i]))
            } else {
                done
            },
        )
    }
}

/// The assets and findings of the hosts from index `i` on, behind those of
/// `done`. A host without an address makes nothing.
pub open spec fn collected_from(hosts: Seq<HostDraft>, i: int, done: (
    Seq<AssetView>,
    Seq<FindingView>,
)) -> (Seq<AssetView>, Seq<FindingView>)
    decreases hosts.len() - i,
{
    if i < 0 || i >= hosts.len() {
        done
    } else if hosts[i].addresses.len() == 0 {
        collected_from(hosts, i + 1, done)
    } else {
        collected_from(
            hosts,
            i + 1,
            (
                done.0.push(asset_of(hosts[i])),
                findings_from(hosts[i].addresses[0].0, hosts[i].ports, 0, done.1),
            ),
        )
    }
}

/// The result of a scan that read `hosts`.
pub open spec fn scan_of(hosts: Seq<HostDraft>, target: Seq<char>, raw_xml: Seq<char>) -> ScanView {
    let collected = collected_from(hosts, 0, (Seq::empty(), Seq::empty()));
    ScanView { tool: "nmap"@, target, assets: collected.0, findings: collected.1, raw_xml }
}

fn finding_for(address: &String, port: &PortBuilder) -> (r: Finding)
    requires
        is_open(port.deep_view()),
    ensures
        r.deep_view() == finding_of(address@, port.deep_view()),
{
    let number_value: u16 = match port.port {
        Some(p) => p,
        None => 0,
    };
    let number = decimal_text(number_value as u64);
    let protocol = match &port.protocol {
        Some(p) => chars_of(p.as_str()),
        None => chars_of("tcp"),
    };
    let address_chars = chars_of(address.as_str());

    let mut id = chars_of("finding://");
    append(&mut id, &address_chars);
    append_str(&mut id, "/");
    append(&mut id, &protocol);
    append_str(&mut id, "-");
    append(&mut id, &number);

    let mut asset = chars_of("asset://host/");
    append(&mut asset, &address_chars);

    let mut title = crate::text::copy_chars(&address_chars);
    append_str(&mut title, ":");
    append(&mut title, &number);
    append_str(&mut title, " ");
    append(&mut title, &protocol);
    append_str(&mut title, " open");

    let mut description = chars_of("Port ");
    append(&mut description, &number);
    append_str(&mut description, " ");
    append(&mut description, &protocol);
    append_str(&mut description, " is open on asset ");
    append(&mut description, &address_chars);
    append_str(&mut description, " with service ");
    append_str(&mut description, debug_service(&port.service).as_str());

    let mut evidence: Vec<(String, Json)> = Vec::new();
    assert(evidence.deep_view() =~= Seq::empty());
    crate::artifact::member(&mut evidence, "port", Json::Integer(number_value as i128));
    match &port.service {
        Some(s) => {
            crate::artifact::member(&mut evidence, "service", Json::String(s.clone()));
        },
        None => {},
    }
    crate::artifact::member(&mut evidence, "state", Json::text("open"));
    assert(evidence.deep_view() =~= evidence_of(port.deep_view()));

    Finding {
        id: string_of(&id),
        asset_id: string_of(&asset),
        port: number_value,
        protocol: string_of(&protocol),
        state: String::from_str("open"),
        service: crate::scenario::copy_option(&port.service),
        title: string_of(&title),
        description: string_of(&description),
        severity: String::from_str("informational"),
        evidence,
    }
}

fn port_is_open(port: &PortBuilder) -> (r: bool)
    ensures
        r == is_open(port.deep_view()),
{
    match &port.state {
        Some(state) => same_str(&chars_of(state.as_str()), "open"),
        None => false,
    }
}

/// The result of a scan that read `hosts`.
pub fn scan_from_hosts(hosts: &Vec<HostBuilder>, target: &str, raw_xml: String) -> (r:
    ScanArtifacts)
    ensures
        r.deep_view() == scan_of(hosts.deep_view(), target@, raw_xml@),
{
    let mut assets: Vec<Asset> = Vec::new();
    let mut findings: Vec<Finding> = Vec::new();
    assert(assets.deep_view() =~= Seq::empty());
    assert(findings.deep_view() =~= Seq::empty());
    let mut i: usize = 0;
    while i < hosts.len()
        invariant
            i <= hosts.len(),
            collected_from(hosts.deep_view(), 0, (Seq::empty(), Seq::empty())) == collected_from(
                hosts.deep_view(),
                i as int,
                (assets.deep_view(), findings.deep_view()),
            ),
        decreases hosts.len() - i,
    {
        assert(hosts.deep_view()[i as int] == hosts[i as int].deep_view());
        let host = &hosts[i];
        if host.addresses.len() > 0 {
            assert(host.addresses.deep_view()[0] == (host.addresses[0].0@, host.addresses[0].1@));
            let primary = host.addresses[0].0.clone();
            let mut addresses: Vec<String> = Vec::new();
            let mut k: usize = 0;
            while k < host.addresses.len()
                invariant
                    k <= host.addresses.len(),
                    addresses.deep_view() == addresses_of(host.deep_view()).take(k as int),
                decreases host.addresses.len() - k,
            {
                let item = host.addresses[k].0.clone();
                let ghost before = addresses.deep_view();
                addresses.push(item);
                assert(addresses.deep_view() =~= before.push(item@));
                assert(host.addresses.deep_view()[k as int] == (
                    host.addresses[k as int].0@,
                    host.addresses[k as int].1@,
                ));
                assert(addresses.deep_view() =~= addresses_of(host.deep_view()).take(k + 1));
                k += 1;
            }
            assert(addresses_of(host.deep_view()).take(host.addresses.len() as int)
                =~= addresses_of(host.deep_view()));
            let mut id = chars_of("asset://host/");
            append_str(&mut id, primary.as_str());
            let labels: Vec<(String, String)> = Vec::new();
            assert(labels.deep_view() =~= Seq::empty());
            let asset = Asset {
                id: string_of(&id),
                addresses,
                hostnames: crate::scenario::copy_list(&host.hostnames),
                labels,
            };
            let ghost findings_before = findings.deep_view();
            let mut p: usize = 0;
            while p < host.ports.len()
                invariant
                    p <= host.ports.len(),
                    findings_from(primary@, host.ports.deep_view(), 0, findings_before)
                        == findings_from(
                        primary@,
                        host.ports.deep_view(),
                        p as int,
                        findings.deep_view(),
                    ),
                decreases host.ports.len() - p,
            {
                assert(host.ports.deep_view()[p as int] == host.ports[p as int].deep_view());
                if port_is_open(&host.ports[p]) {
                    let finding = finding_for(&primary, &host.ports[p]);
                    let ghost before = findings.deep_view();
                    findings.push(finding);
                    assert(findings.deep_view() =~= before.push(finding.deep_view()));
                }
                p += 1;
            }
            let ghost assets_before = assets.deep_view();
            assets.push(asset);
            assert(assets.deep_view() =~= assets_before.push(asset.deep_view()));
        }
        i += 1;
    }
    ScanArtifacts {
        tool: String::from_str("nmap"),
        target: String::from_str(target),
        assets,
        findings,
        raw_xml,
    }
}

/// The result of a scan as its XML tells it: the assets and findings of the
/// document, or the message of the reader's first failure.
pub open spec fn nmap_scan(xml: Seq<u8>, target: Seq<char>) -> Result<ScanView, Seq<char>> {
    match hosts_of(xml_events(xml), no_reading()) {
        Ok(hosts) => Ok(scan_of(hosts, target, utf8_lossy(xml))),
        Err(e) => Err(e),
    }
}

/// Reads the XML that nmap wrote for `target`.
pub fn parse_nmap_xml(xml: &Vec<u8>, target: &str) -> (r: Result<ScanArtifacts, String>)
    ensures
        match r {
            Ok(scan) => nmap_scan(xml@, target@) == Ok::<ScanView, Seq<char>>(scan.deep_view()),
            Err(e) => nmap_scan(xml@, target@) == Err::<ScanView, Seq<char>>(e@),
        },
{
    match read_hosts(xml.as_slice()) {
        Ok(hosts) => Ok(scan_from_hosts(&hosts, target, lossy_text(xml))),
        Err(e) => Err(e),
    }
}

} // verus!
