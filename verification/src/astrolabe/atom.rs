//! Reading the arXiv API's Atom feed: the first `<entry>` gives the title,
//! summary, authors, categories and publication date of a paper.

use vstd::prelude::*;
use quick_xml::events::Event;
use crate::astrolabe::arxiv::ArxivMetadata;
use crate::astrolabe::processor::ProcessorError;
use crate::text::{contains_spec, contains_str, join, join_spec, split_whitespace, str_eq, trim, trim_spec, words_spec};

verus! {

/// One event of an XML reader, as plain values.
#[derive(Debug, Clone)]
pub enum XmlEvent {
    /// A start tag, by name.
    Start(String),
    /// An end tag, by name.
    End(String),
    /// An empty-element tag, by name, with its attributes (key, value).
    Empty(String, Vec<(String, String)>),
    /// Character data, unescaped (empty when it could not be unescaped).
    Text(String),
    /// The end of the document.
    Eof,
    /// A syntax error, with its message.
    Error(String),
    /// Anything else (comments, declarations, CDATA, ...).
    Other,
}

/// The state of the reading: where in the feed it is and what it has found.
pub struct AtomState {
    pub in_entry: bool,
    pub in_author: bool,
    pub tag: Seq<char>,
    pub title: Seq<char>,
    pub summary: Seq<char>,
    pub authors: Seq<Seq<char>>,
    pub categories: Seq<Seq<char>>,
    pub published: Seq<char>,
    pub author_name: Seq<char>,
}

/// Whether to read on, stop, or fail with a message.
pub enum Flow {
    Go,
    Stop,
    Fail(Seq<char>),
}

/// The state before the first event.
pub open spec fn atom_start() -> AtomState {
    AtomState {
        in_entry: false,
        in_author: false,
        tag: Seq::empty(),
        title: Seq::empty(),
        summary: Seq::empty(),
        authors: Seq::empty(),
        categories: Seq::empty(),
        published: Seq::empty(),
        author_name: Seq::empty(),
    }
}

/// The non-empty values of the `term` attributes, in order.
pub open spec fn term_values(attrs: Seq<(String, String)>) -> Seq<Seq<char>>
    decreases attrs.len(),
{
    if attrs.len() == 0 {
        Seq::empty()
    } else {
        let rest = term_values(attrs.drop_last());
        let a = attrs.last();
        if a.0@ == "term"@ && a.1@.len() > 0 {
            rest.push(a.1@)
        } else {
            rest
        }
    }
}

/// `s` with its white space runs turned into single spaces and trimmed.
pub open spec fn squeeze(s: Seq<char>) -> Seq<char> {
    join_spec(words_spec(s), " "@)
}

/// What one event does to the state.
pub open spec fn atom_step(st: AtomState, ev: XmlEvent) -> (AtomState, Flow) {
    match ev {
        XmlEvent::Start(n) => {
            let in_entry = st.in_entry || n@ == "entry"@;
            let in_author = if n@ != "entry"@ && n@ == "author"@ && st.in_entry { true } else { st.in_author };
            let tag = if in_entry { n@ } else { st.tag };
            (AtomState { in_entry, in_author, tag, ..st }, Flow::Go)
        },
        XmlEvent::Empty(n, attrs) => {
            if st.in_entry && n@ == "category"@ {
                (AtomState { categories: st.categories + term_values(attrs@), ..st }, Flow::Go)
            } else {
                (st, Flow::Go)
            }
        },
        XmlEvent::Text(x) => {
            if !st.in_entry {
                (st, Flow::Go)
            } else if st.in_author && st.tag == "name"@ {
                (AtomState { author_name: trim_spec(x@), ..st }, Flow::Go)
            } else if st.tag == "title"@ {
                (AtomState { title: squeeze(x@), ..st }, Flow::Go)
            } else if st.tag == "summary"@ {
                (AtomState { summary: squeeze(x@), ..st }, Flow::Go)
            } else if st.tag == "published"@ {
                (AtomState { published: trim_spec(x@), ..st }, Flow::Go)
            } else {
                (st, Flow::Go)
            }
        },
        XmlEvent::End(n) => {
            if n@ == "entry"@ {
                (st, Flow::Stop)
            } else if n@ == "author"@ && st.in_entry {
                let authors = if st.author_name.len() > 0 { st.authors.push(st.author_name) } else { st.authors };
                (
                    AtomState { authors, author_name: Seq::empty(), in_author: false, tag: Seq::empty(), ..st },
                    Flow::Go,
                )
            } else {
                (AtomState { tag: Seq::empty(), ..st }, Flow::Go)
            }
        },
        XmlEvent::Eof => (st, Flow::Stop),
        XmlEvent::Error(m) => (st, Flow::Fail(m@)),
        XmlEvent::Other => (st, Flow::Go),
    }
}

/// The state and flow after the events `evs[i..]`, read in order until one
/// stops or fails the reading (running out of events stops it).
pub open spec fn atom_run(evs: Seq<XmlEvent>, i: int, st: AtomState) -> (AtomState, Flow)
    decreases evs.len() - i,
{
    if i < 0 || i >= evs.len() {
        (st, Flow::Stop)
    } else {
        let (st2, f) = atom_step(st, evs[i]);
        match f {
            Flow::Go => atom_run(evs, i + 1, st2),
            _ => (st2, f),
        }
    }
}

/// What the events of a feed give.
pub enum AtomOutcome {
    /// An entry was read: title, authors, summary, categories, publication date.
    Found(Seq<char>, Seq<Seq<char>>, Seq<char>, Seq<Seq<char>>, Seq<char>),
    /// The XML is malformed; the reader's message.
    Malformed(Seq<char>),
    /// No entry with a title free of `Error` was found.
    NoEntry,
}

/// What the events `evs` of a feed give.
pub open spec fn atom_result(evs: Seq<XmlEvent>) -> AtomOutcome {
    let (st, f) = atom_run(evs, 0, atom_start());
    match f {
        Flow::Fail(m) => AtomOutcome::Malformed(m),
        _ => if st.title.len() == 0 || contains_spec(st.title, "Error"@) {
            AtomOutcome::NoEntry
        } else {
            AtomOutcome::Found(st.title, st.authors, st.summary, st.categories, st.published)
        },
    }
}

/// `r` is what reading the events `evs` gives for the paper `id`.
pub open spec fn atom_outcome(evs: Seq<XmlEvent>, id: Seq<char>, r: Result<ArxivMetadata, ProcessorError>) -> bool {
    match atom_result(evs) {
        AtomOutcome::Found(title, authors, summary, categories, published) => {
            &&& r matches Ok(m)
            &&& m.arxiv_id@ == id
            &&& m.title@ == title
            &&& m.authors.deep_view() == authors
            &&& m.abstract_text@ == summary
            &&& m.categories.deep_view() == categories
            &&& m.published@ == published
        },
        AtomOutcome::Malformed(msg) => r matches Err(ProcessorError::ParseError(e)) && e@ == "XML parse error: "@ + msg,
        AtomOutcome::NoEntry => r matches Err(ProcessorError::ExtractionFailed(e)) && e@
            == "No valid entry found for arXiv:"@ + id,
    }
}

/// The reading state as the running code holds it.
pub struct AtomReader {
    in_entry: bool,
    in_author: bool,
    tag: String,
    title: String,
    summary: String,
    authors: Vec<String>,
    categories: Vec<String>,
    published: String,
    author_name: String,
}

/// Whether to read on, stop, or fail with a message.
pub enum StepFlow {
    Go,
    Stop,
    Fail(String),
}

impl AtomReader {
    pub closed spec fn view_state(&self) -> AtomState {
        AtomState {
            in_entry: self.in_entry,
            in_author: self.in_author,
            tag: self.tag@,
            title: self.title@,
            summary: self.summary@,
            authors: self.authors.deep_view(),
            categories: self.categories.deep_view(),
            published: self.published@,
            author_name: self.author_name@,
        }
    }

    /// The state before the first event.
    pub fn new() -> (r: Self)
        ensures
            r.view_state() == atom_start(),
    {
        let r = AtomReader {
            in_entry: false,
            in_author: false,
            tag: String::new(),
            title: String::new(),
            summary: String::new(),
            authors: Vec::new(),
            categories: Vec::new(),
            published: String::new(),
            author_name: String::new(),
        };
        assert(r.view_state().authors =~= Seq::<Seq<char>>::empty());
        assert(r.view_state().categories =~= Seq::<Seq<char>>::empty());
        r
    }

    /// Applies one event.
    pub fn step(&mut self, ev: &XmlEvent) -> (f: StepFlow)
        ensures
            final(self).view_state() == atom_step(old(self).view_state(), *ev).0,
            match (f, atom_step(old(self).view_state(), *ev).1) {
                (StepFlow::Go, Flow::Go) => true,
                (StepFlow::Stop, Flow::Stop) => true,
                (StepFlow::Fail(m), Flow::Fail(g)) => m@ == g,
                _ => false,
            },
    {
        let ghost st = self.view_state();
        match ev {
            XmlEvent::Start(n) => {
                let is_entry = str_eq(n.as_str(), "entry");
                let was_in_entry = self.in_entry;
                if is_entry {
                    self.in_entry = true;
                } else if str_eq(n.as_str(), "author") && was_in_entry {
                    self.in_author = true;
                }
                if self.in_entry {
                    self.tag = n.clone();
                }
                StepFlow::Go
            },
            XmlEvent::Empty(n, attrs) => {
                if self.in_entry && str_eq(n.as_str(), "category") {
                    let mut i: usize = 0;
                    let ghost base = self.categories.deep_view();
                    while i < attrs.len()
                        invariant
                            i <= attrs@.len(),
                            self.categories.deep_view() == base + term_values(attrs@.take(i as int)),
                            self.in_entry == st.in_entry,
                            self.in_author == st.in_author,
                            self.tag@ == st.tag,
                            self.title@ == st.title,
                            self.summary@ == st.summary,
                            self.authors.deep_view() == st.authors,
                            self.published@ == st.published,
                            self.author_name@ == st.author_name,
                        decreases attrs@.len() - i,
                    {
                        let ghost before = self.categories.deep_view();
                        assert(attrs@.take(i as int + 1).drop_last() =~= attrs@.take(i as int));
                        if str_eq(attrs[i].0.as_str(), "term") && !attrs[i].1.as_str().is_empty() {
                            self.categories.push(attrs[i].1.clone());
                            assert(self.categories.deep_view() =~= before.push(attrs@[i as int].1@));
                        }
                        i = i + 1;
                    }
                    assert(attrs@.take(i as int) =~= attrs@);
                }
                StepFlow::Go
            },
            XmlEvent::Text(x) => {
                if !self.in_entry {
                } else if self.in_author && str_eq(self.tag.as_str(), "name") {
                    self.author_name = trim(x.as_str());
                } else if str_eq(self.tag.as_str(), "title") {
                    let words = split_whitespace(x.as_str());
                    self.title = join(&words, " ");
                } else if str_eq(self.tag.as_str(), "summary") {
                    let words = split_whitespace(x.as_str());
                    self.summary = join(&words, " ");
                } else if str_eq(self.tag.as_str(), "published") {
                    self.published = trim(x.as_str());
                }
                StepFlow::Go
            },
            XmlEvent::End(n) => {
                if str_eq(n.as_str(), "entry") {
                    return StepFlow::Stop;
                }
                if str_eq(n.as_str(), "author") && self.in_entry {
                    if !self.author_name.as_str().is_empty() {
                        let name = self.author_name.clone();
                        let ghost before = self.authors.deep_view();
                        self.authors.push(name);
                        assert(self.authors.deep_view() =~= before.push(st.author_name));
                    }
                    self.author_name = String::new();
                    self.in_author = false;
                }
                self.tag = String::new();
                StepFlow::Go
            },
            XmlEvent::Eof => StepFlow::Stop,
            XmlEvent::Error(m) => StepFlow::Fail(m.clone()),
            XmlEvent::Other => StepFlow::Go,
        }
    }

    /// The outcome once the reading has stopped (not failed).
    pub fn finish(self, id: &str) -> (r: Result<ArxivMetadata, ProcessorError>)
        ensures
            match r {
                Ok(m) => {
                    &&& self.view_state().title.len() > 0 && !contains_spec(self.view_state().title, "Error"@)
                    &&& m.arxiv_id@ == id@
                    &&& m.title@ == self.view_state().title
                    &&& m.authors.deep_view() == self.view_state().authors
                    &&& m.abstract_text@ == self.view_state().summary
                    &&& m.categories.deep_view() == self.view_state().categories
                    &&& m.published@ == self.view_state().published
                },
                Err(e) => (self.view_state().title.len() == 0 || contains_spec(self.view_state().title, "Error"@)) && (
                e matches ProcessorError::ExtractionFailed(msg) && msg@ == "No valid entry found for arXiv:"@ + id@),
            },
    {
        if self.title.as_str().is_empty() || contains_str(self.title.as_str(), "Error") {
            let mut msg = String::from_str("No valid entry found for arXiv:");
            msg.append(id);
            return Err(ProcessorError::ExtractionFailed(msg));
        }
        Ok(
            ArxivMetadata {
                arxiv_id: String::from_str(id),
                title: self.title,
                authors: self.authors,
                abstract_text: self.summary,
                categories: self.categories,
                published: self.published,
            },
        )
    }
}

/// Reads paper metadata from the events of an arXiv API feed.
pub fn parse_arxiv_events(events: &Vec<XmlEvent>, arxiv_id: &str) -> (r: Result<ArxivMetadata, ProcessorError>)
    ensures
        atom_outcome(events@, arxiv_id@, r),
{
    let mut rd = AtomReader::new();
    let mut i: usize = 0;
    while i < events.len()
        invariant
            i <= events@.len(),
            atom_run(events@, i as int, rd.view_state()) == atom_run(events@, 0, atom_start()),
        decreases events@.len() - i,
    {
        match rd.step(&events[i]) {
            StepFlow::Go => {},
            StepFlow::Stop => {
                return rd.finish(arxiv_id);
            },
            StepFlow::Fail(m) => {
                let mut msg = String::from_str("XML parse error: ");
                msg.append(m.as_str());
                return Err(ProcessorError::ParseError(msg));
            },
        }
        i = i + 1;
    }
    rd.finish(arxiv_id)
}

/// The state after the events `evs`, when each of them lets the reading go on.
pub open spec fn atom_prefix(evs: Seq<XmlEvent>, st: AtomState) -> Option<AtomState>
    decreases evs.len(),
{
    if evs.len() == 0 {
        Some(st)
    } else {
        match atom_prefix(evs.drop_last(), st) {
            Some(s) => {
                let (s2, f) = atom_step(s, evs.last());
                if f is Go {
                    Some(s2)
                } else {
                    None
                }
            },
            None => None,
        }
    }
}

proof fn lemma_atom_prefix(evs: Seq<XmlEvent>, k: int, s0: AtomState, s: AtomState)
    requires
        0 <= k <= evs.len(),
        atom_prefix(evs.take(k), s0) == Some(s),
    ensures
        atom_run(evs, 0, s0) == atom_run(evs, k, s),
    decreases k,
{
    if k > 0 {
        assert(evs.take(k).drop_last() =~= evs.take(k - 1));
        assert(evs.take(k).last() == evs[k - 1]);
        let sp = atom_prefix(evs.take(k - 1), s0).unwrap();
        lemma_atom_prefix(evs, k - 1, s0, sp);
    }
}

/// The XML reader of quick-xml over a string.
#[verifier::external_type_specification]
#[verifier::external_body]
#[verifier::reject_recursive_types(R)]
pub struct ExXmlReader<R>(quick_xml::reader::Reader<R>);

/// The `i`-th event (counting from 0) that quick-xml's reader gives over
/// the text `xml`, with character data trimmed (`trim`) or not, as plain
/// values. Reading is a function of the text and that setting alone.
pub uninterp spec fn xml_event_at(xml: Seq<char>, trim: bool, i: nat) -> XmlEvent;

/// The first `n` events that quick-xml's reader gives over `xml`.
pub open spec fn xml_events(xml: Seq<char>, trim: bool, n: nat) -> Seq<XmlEvent> {
    Seq::new(n, |i: int| xml_event_at(xml, trim, i as nat))
}

/// quick-xml's reader over a text, with the text it reads, whether it trims
/// character data, and how many events it has given so far.
pub struct XmlSource<'a> {
    reader: quick_xml::reader::Reader<&'a [u8]>,
    text: Ghost<Seq<char>>,
    trim: Ghost<bool>,
    read: Ghost<nat>,
}

impl<'a> XmlSource<'a> {
    /// The text being read.
    pub closed spec fn text(&self) -> Seq<char> {
        self.text@
    }

    /// Whether character data is trimmed.
    pub closed spec fn trims(&self) -> bool {
        self.trim@
    }

    /// How many events have been read.
    pub closed spec fn read(&self) -> nat {
        self.read@
    }
}

/// `quick_xml::Reader::from_str`: a reader over `xml`, which has read
/// nothing yet and does not trim character data (the default).
#[verifier::external_body]
pub(crate) fn xml_reader<'a>(xml: &'a str) -> (r: XmlSource<'a>)
    ensures
        r.text() == xml@,
        !r.trims(),
        r.read() == 0,
{
    XmlSource {
        reader: quick_xml::reader::Reader::from_str(xml),
        text: Ghost(xml@),
        trim: Ghost(false),
        read: Ghost(0),
    }
}

/// `quick_xml::Reader::trim_text(true)`, before the first read: from then
/// on the reader trims the white space around character data and drops the
/// data left empty.
#[verifier::external_body]
pub(crate) fn trim_xml_text(src: &mut XmlSource)
    requires
        old(src).read() == 0,
    ensures
        final(src).text() == old(src).text(),
        final(src).trims(),
        final(src).read() == 0,
{
    src.reader.trim_text(true);
}

/// `String::from_utf8_lossy`: the bytes read as UTF-8, each invalid
/// sequence replaced; nothing is stated of the text.
#[verifier::external_body]
fn lossy(b: &[u8]) -> String {
    String::from_utf8_lossy(b).into_owned()
}

/// `quick_xml::Reader::read_event`: the next event, as plain values (tag
/// names and attributes decoded lossily, text unescaped, empty when it
/// cannot be). The events given one after the other are those the reader
/// makes of its text (`xml_event_at`); after the end it keeps giving `Eof`.
#[verifier::external_body]
pub(crate) fn next_xml_event(src: &mut XmlSource) -> (ev: XmlEvent)
    ensures
        final(src).text() == old(src).text(),
        final(src).trims() == old(src).trims(),
        final(src).read() == old(src).read() + 1,
        ev == xml_event_at(old(src).text(), old(src).trims(), old(src).read()),
{
    match src.reader.read_event() {
        Ok(Event::Start(e)) => XmlEvent::Start(lossy(e.name().0)),
        Ok(Event::End(e)) => XmlEvent::End(lossy(e.name().0)),
        Ok(Event::Empty(e)) => XmlEvent::Empty(
            lossy(e.name().0),
            e.attributes().flatten().map(|a| (lossy(a.key.0), lossy(&a.value))).collect(),
        ),
        Ok(Event::Text(e)) => XmlEvent::Text(e.unescape().unwrap_or_default().into_owned()),
        Ok(Event::Eof) => XmlEvent::Eof,
        Ok(_) => XmlEvent::Other,
        Err(e) => XmlEvent::Error(e.to_string()),
    }
}

/// Parses an arXiv API Atom response: reading the events of `xml` (at
/// most one per character, and the end; character data not trimmed) until
/// one stops or fails the reading gives the outcome `atom_outcome` describes.
pub fn parse_arxiv_response(xml: &str, arxiv_id: &str) -> (r: Result<ArxivMetadata, ProcessorError>)
    ensures
        atom_outcome(xml_events(xml@, false, xml@.len() + 1), arxiv_id@, r),
{
    let n = xml.unicode_len();
    let ghost full = xml_events(xml@, false, xml@.len() + 1);
    let mut src = xml_reader(xml);
    let mut rd = AtomReader::new();
    let mut left = n;
    assert(full.take(0) =~= Seq::<XmlEvent>::empty());
    loop
        invariant
            n == xml@.len(),
            full == xml_events(xml@, false, xml@.len() + 1),
            src.text() == xml@,
            !src.trims(),
            src.read() + left == n,
            atom_prefix(full.take(src.read() as int), atom_start()) == Some(rd.view_state()),
        decreases left,
    {
        let ghost k = src.read() as int;
        let ghost before = rd.view_state();
        let ev = next_xml_event(&mut src);
        proof {
            assert(ev == full[k]);
            assert(full.take(k + 1).drop_last() =~= full.take(k));
            assert(full.take(k + 1).last() == ev);
            lemma_atom_prefix(full, k, atom_start(), before);
        }
        match rd.step(&ev) {
            StepFlow::Go => {},
            StepFlow::Stop => {
                let r = rd.finish(arxiv_id);
                return r;
            },
            StepFlow::Fail(m) => {
                let mut msg = String::from_str("XML parse error: ");
                msg.append(m.as_str());
                let r = Err(ProcessorError::ParseError(msg));
                return r;
            },
        }
        if left == 0 {
            proof {
                assert(full.take(k + 1) =~= full);
                lemma_atom_prefix(full, k + 1, atom_start(), rd.view_state());
            }
            let r = rd.finish(arxiv_id);
            return r;
        }
        left = left - 1;
    }
}

} // verus!
