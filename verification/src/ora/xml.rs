//! Reading `stack.xml` text with `quick-xml` and feeding its events to the
//! [`StackParser`].

use vstd::prelude::*;

use quick_xml::events::Event;
use quick_xml::Reader;

use super::error::OraError;
use super::stack::{blank, fed, fed_all, finished, stack_result, OraImage, StackParser, XmlAttr, XmlEvent};

verus! {

/// The events `quick-xml` reads from the text `xml`, up to and including
/// the end of the document or the first error.
pub uninterp spec fn xml_events(xml: Seq<char>) -> Seq<XmlEvent>;

#[verifier::external_type_specification]
#[verifier::external_body]
pub struct ExXmlReadEvent<'a>(quick_xml::events::Event<'a>);

#[verifier::external_type_specification]
#[verifier::external_body]
pub struct ExXmlReadError(quick_xml::Error);

/// Converts one event `quick_xml::Reader::read_event_into` gave: start and
/// end tags give their local name, a start tag its raw attributes (those
/// the reader reports malformed are left out), names and values read as
/// UTF-8 with invalid bytes replaced; an error gives its message. The
/// events of a whole text are named by [`xml_events`] where they are read.
#[verifier::external_body]
fn convert_event(read: Result<Event<'_>, quick_xml::Error>) -> XmlEvent {
    let text = |b: &[u8]| String::from_utf8_lossy(b).into_owned();
    match read {
        Err(e) => XmlEvent::Error(e.to_string()),
        Ok(Event::Eof) => XmlEvent::Eof,
        Ok(Event::Start(e)) => {
            let attrs = e.attributes().flatten().map(|a| XmlAttr { key: text(a.key.as_ref()), value: text(&a.value) });
            XmlEvent::Start { name: text(e.local_name().as_ref()), attrs: attrs.collect() }
        },
        Ok(Event::End(e)) => XmlEvent::End { name: text(e.local_name().as_ref()) },
        Ok(_) => XmlEvent::Other,
    }
}

/// Reads `xml` with `quick_xml::Reader` (empty elements reported as a start
/// and an end tag, text trimmed), calling `read_event_into` until the end
/// of the document or an error; the converted events are named by
/// [`xml_events`].
#[verifier::external_body]
fn read_events(xml: &str) -> (r: Vec<XmlEvent>)
    ensures
        r@ == xml_events(xml@),
{
    let (mut reader, mut events) = (Reader::from_str(xml), Vec::new());
    reader.config_mut().expand_empty_elements = true;
    reader.config_mut().trim_text(true);
    loop {
        let ev = convert_event(reader.read_event_into(&mut Vec::new()));
        let done = matches!(ev, XmlEvent::Eof | XmlEvent::Error(_));
        events.push(ev);
        if done {
            return events;
        }
    }
}

/// Parse `stack.xml`: a fresh [`StackParser`] takes in the reader's events
/// of `xml` in order until it asks to stop, then gives its result.
pub fn parse_stack(xml: &str) -> (r: Result<OraImage, OraError>)
    ensures
        stack_result(xml_events(xml@), r),
{
    let mut events = read_events(xml);
    let ghost all = events@;
    assert(all == xml_events(xml@));
    let mut parser = StackParser::new();
    let mut i: usize = 0;
    let n = events.len();
    assert(all.take(0) =~= Seq::<XmlEvent>::empty());
    while i < n
        invariant
            n == all.len(),
            all == xml_events(xml@),
            i <= n,
            events@ == all.subrange(i as int, n as int),
            fed_all(all.take(i as int), parser),
        decreases n - i,
    {
        assert(events@[0] == all[i as int]);
        let ev = events.remove(0);
        let ghost q = parser;
        let ghost e = ev;
        let more = parser.feed(ev);
        assert(fed(q, e, parser, more));
        if !more {
            let ghost p = parser;
            let r = parser.finish();
            proof {
                let k = i as int;
                assert(0 <= k < all.len() && fed_all(all.take(k), q) && fed(q, all[k], p, false) && finished(p, r));
                assert(stack_result(all, r));
            }
            return r;
        }
        proof {
            let t = all.take(i + 1);
            assert(t.drop_last() =~= all.take(i as int));
            assert(t.last() == all[i as int]);
            assert(fed(q, t.last(), parser, true));
        }
        assert(events@ =~= all.subrange(i + 1, n as int));
        i = i + 1;
    }
    assert(all.take(n as int) =~= all);
    let ghost p = parser;
    let r = parser.finish();
    assert(fed_all(all, p) && finished(p, r));
    r
}

} // verus!
