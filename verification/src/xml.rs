//! Reading the `href` entries of a WebDAV listing with `quick_xml`.

use vstd::prelude::*;
use quick_xml::events::Event;
use quick_xml::reader::Reader;

verus! {

/// `quick_xml`'s pull parser, carried through as an opaque value.
#[verifier::external_type_specification]
#[verifier::external_body]
#[verifier::reject_recursive_types(R)]
pub struct ExReader<R>(Reader<R>);

/// One event of the XML pull parser, reduced to what the listing needs.
#[derive(Debug, Clone, PartialEq, Eq)]
pub enum XmlEvent {
    /// An opening tag, with its qualified name as written (`d:href`).
    Start(Vec<u8>),
    /// A text node, unescaped; `None` when it holds a malformed entity.
    Text(Option<String>),
    /// A closing tag.
    End,
    /// The end of the document.
    Eof,
    /// A syntax error; the parser stops there.
    Error,
    /// Any other event (empty element, comment, declaration, CDATA, ...).
    Other,
}

/// The events that `quick_xml`'s `Reader`, created by `Reader::from_str` on
/// `xml` with text trimming switched on, yields through `read_event_into`, in
/// order, up to and including the first end of document or error.
pub uninterp spec fn spec_xml_events(xml: Seq<char>) -> Seq<XmlEvent>;

/// Whether an event ends the stream.
pub open spec fn is_final(e: XmlEvent) -> bool {
    e is Eof || e is Error
}

/// A pull parser over one XML text, with a count of the events read so far.
struct XmlEventReader<'a> {
    reader: Reader<&'a [u8]>,
    buf: Vec<u8>,
    source: Ghost<Seq<char>>,
    read: Ghost<nat>,
}

impl<'a> XmlEventReader<'a> {
    /// Creates the parser with `Reader::from_str`, then switches on
    /// `trim_text`. The events it will yield are `spec_xml_events(xml)`, which
    /// hold at least the final end of document or error.
    #[verifier::external_body]
    fn new(xml: &'a str) -> (r: Self)
        ensures
            r.source@ == xml@,
            r.read@ == 0,
            spec_xml_events(r.source@).len() > 0,
    {
        let mut reader = Reader::from_str(xml);
        reader.config_mut().trim_text(true);
        XmlEventReader { reader, buf: Vec::new(), source: Ghost(xml@), read: Ghost(0) }
    }

    /// Calls `Reader::read_event_into` and reduces the event it returns. The
    /// event is the next one of `spec_xml_events`; after the end of document
    /// or an error there is none left.
    #[verifier::external_body]
    fn next_event(&mut self) -> (ev: XmlEvent)
        requires
            old(self).read@ < spec_xml_events(old(self).source@).len(),
        ensures
            final(self).source@ == old(self).source@,
            final(self).read@ == old(self).read@ + 1,
            ev == spec_xml_events(old(self).source@)[old(self).read@ as int],
            is_final(ev) <==> final(self).read@ == spec_xml_events(final(self).source@).len(),
    {
        self.buf.clear();
        match self.reader.read_event_into(&mut self.buf) {
            Ok(Event::Start(e)) => XmlEvent::Start(e.name().as_ref().to_vec()),
            Ok(Event::Text(e)) => XmlEvent::Text(e.unescape().ok().map(|s| s.into_owned())),
            Ok(Event::End(_)) => XmlEvent::End,
            Ok(Event::Eof) => XmlEvent::Eof,
            Err(_) => XmlEvent::Error,
            Ok(_) => XmlEvent::Other,
        }
    }
}

/// Whether a tag name is `href` in any namespace: `href` or `<prefix>:href`.
pub open spec fn is_href_name(name: Seq<u8>) -> bool {
    name == seq![104u8, 114u8, 101u8, 102u8] || (name.len() >= 5 && name.subrange(
        name.len() - 5,
        name.len() as int,
    ) == seq![58u8, 104u8, 114u8, 101u8, 102u8])
}

/// The texts found inside `href` elements of `evs`, when the scan starts
/// inside (`in_href`) or outside such an element. An opening `href` tag
/// enters one; any closing tag leaves it; the scan stops at the end of the
/// document or at an error.
pub open spec fn hrefs_from(evs: Seq<XmlEvent>, in_href: bool) -> Seq<Seq<char>>
    decreases evs.len(),
{
    if evs.len() == 0 {
        Seq::empty()
    } else {
        let rest = evs.drop_first();
        match evs[0] {
            XmlEvent::Start(name) => hrefs_from(rest, in_href || is_href_name(name@)),
            XmlEvent::Text(t) => if in_href && t is Some {
                seq![t.unwrap()@] + hrefs_from(rest, in_href)
            } else {
                hrefs_from(rest, in_href)
            },
            XmlEvent::End => hrefs_from(rest, false),
            XmlEvent::Eof => Seq::empty(),
            XmlEvent::Error => Seq::empty(),
            XmlEvent::Other => hrefs_from(rest, in_href),
        }
    }
}

/// The views of a sequence of strings.
pub open spec fn views(v: Seq<String>) -> Seq<Seq<char>> {
    v.map_values(|s: String| s@)
}

/// Whether a tag name is `href` in any namespace.
fn is_href_tag(name: &Vec<u8>) -> (r: bool)
    ensures
        r == is_href_name(name@),
{
    let n: usize = name.len();
    if n == 4 && name[0] == 104u8 && name[1] == 114u8 && name[2] == 101u8 && name[3] == 102u8 {
        assert(name@ =~= seq![104u8, 114u8, 101u8, 102u8]);
        return true;
    }
    assert(name@ != seq![104u8, 114u8, 101u8, 102u8]) by {
        if name@ == seq![104u8, 114u8, 101u8, 102u8] {
            assert(name@[0] == 104u8);
        }
    }
    if n >= 5 {
        let ok = name[n - 5] == 58u8 && name[n - 4] == 104u8 && name[n - 3] == 114u8 && name[n
            - 2] == 101u8 && name[n - 1] == 102u8;
        let ghost tail = name@.subrange(n - 5, n as int);
        if ok {
            assert(tail =~= seq![58u8, 104u8, 114u8, 101u8, 102u8]);
        } else {
            assert(tail != seq![58u8, 104u8, 114u8, 101u8, 102u8]) by {
                if tail == seq![58u8, 104u8, 114u8, 101u8, 102u8] {
                    assert(tail[0] == name@[n - 5]);
                    assert(tail[1] == name@[n - 4]);
                    assert(tail[2] == name@[n - 3]);
                    assert(tail[3] == name@[n - 2]);
                    assert(tail[4] == name@[n - 1]);
                }
            }
        }
        ok
    } else {
        false
    }
}

/// Whether an event ends the stream.
fn is_final_event(ev: &XmlEvent) -> (r: bool)
    ensures
        r == is_final(*ev),
{
    match ev {
        XmlEvent::Eof => true,
        XmlEvent::Error => true,
        _ => false,
    }
}

/// The texts inside `href` elements of a stream of events, in order: an
/// opening `href` tag (in any namespace) enters such an element, any closing
/// tag leaves it, and the scan stops at the end of the document or at an
/// error.
pub fn hrefs_of_events(evs: &Vec<XmlEvent>) -> (r: Vec<String>)
    ensures
        views(r@) == hrefs_from(evs@, false),
{
    let mut hrefs: Vec<String> = Vec::new();
    let mut in_href = false;
    let mut i: usize = 0;
    assert(evs@.skip(0) == evs@);
    while i < evs.len()
        invariant
            i <= evs@.len(),
            views(hrefs@) + hrefs_from(evs@.skip(i as int), in_href) == hrefs_from(evs@, false),
        decreases evs.len() - i,
    {
        let ghost tail = evs@.skip(i as int);
        assert(tail[0] == evs@[i as int]);
        assert(tail.drop_first() == evs@.skip(i + 1));
        match &evs[i] {
            XmlEvent::Start(name) => {
                if is_href_tag(name) {
                    in_href = true;
                }
            },
            XmlEvent::Text(t) => {
                if in_href {
                    match t {
                        Some(s) => {
                            let ghost before = hrefs@;
                            let c = s.clone();
                            hrefs.push(c);
                            assert(views(hrefs@) == views(before) + seq![s@]);
                        },
                        None => {},
                    }
                }
            },
            XmlEvent::End => {
                in_href = false;
            },
            XmlEvent::Eof => {
                assert(views(hrefs@) + Seq::<Seq<char>>::empty() == views(hrefs@));
                return hrefs;
            },
            XmlEvent::Error => {
                assert(views(hrefs@) + Seq::<Seq<char>>::empty() == views(hrefs@));
                return hrefs;
            },
            XmlEvent::Other => {},
        }
        i = i + 1;
    }
    assert(evs@.skip(i as int).len() == 0);
    assert(views(hrefs@) + Seq::<Seq<char>>::empty() == views(hrefs@));
    hrefs
}

/// The events of `xml`, read to the end of the document or the first error.
fn read_events(xml: &str) -> (r: Vec<XmlEvent>)
    ensures
        r@ == spec_xml_events(xml@),
{
    let mut rd = XmlEventReader::new(xml);
    let ghost all = spec_xml_events(xml@);
    let mut evs: Vec<XmlEvent> = Vec::new();
    loop
        invariant_except_break
            rd.source@ == xml@,
            all == spec_xml_events(xml@),
            rd.read@ < all.len(),
            evs@ == all.take(rd.read@ as int),
        ensures
            evs@ == all,
        decreases all.len() - rd.read@,
    {
        let ghost k = rd.read@ as int;
        let ev = rd.next_event();
        let last = is_final_event(&ev);
        evs.push(ev);
        assert(evs@ == all.take(k + 1));
        if last {
            assert(all.take(all.len() as int) == all);
            break;
        }
    }
    evs
}

/// Every text node inside an `href` element of `xml`, in document order.
pub fn extract_hrefs(xml: &str) -> (r: Vec<String>)
    ensures
        views(r@) == hrefs_from(spec_xml_events(xml@), false),
{
    hrefs_of_events(&read_events(xml))
}

} // verus!
