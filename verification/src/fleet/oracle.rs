//! The knowledge-graph ingestion pipeline's rules: the dedup hash of an
//! episode, the seed documents, how arXiv papers are fetched in batches and
//! read from the API's Atom feed, and which logs and threads are ingested.

use vstd::prelude::*;
use vstd::utf8::encode_utf8;
use crate::astrolabe::arxiv::id_len_at_exec;
use crate::astrolabe::arxiv::id_len_at;
use crate::astrolabe::atom::{next_xml_event, squeeze, trim_xml_text, xml_events, xml_reader, XmlEvent};
use crate::astrolabe::scan::{class_pred, digit_char, is_digit, run_len, run_of, Class};
use crate::codec::{hex_encode, hex_encode_spec, sha256, sha256_spec};
use crate::text::{
    contains_spec, contains_str, decimal_spec, decimal_u64, has_string, join, join_spec, push_char, split_whitespace, str_eq,
    string_of, to_chars, trim, trim_spec, words_spec,
};

verus! {

/// The dedup hash of an episode: the hex of the first 8 bytes of the
/// SHA-256 of `name|body`.
pub open spec fn content_hash_spec(name: Seq<char>, body: Seq<char>) -> Seq<char> {
    hex_encode_spec(sha256_spec(encode_utf8(name + "|"@ + body)).take(8))
}

/// The dedup hash of an episode (see `content_hash_spec`).
pub fn content_hash(name: &str, body: &str) -> (r: String)
    ensures
        r@ == content_hash_spec(name@, body@),
{
    let mut text = String::from_str(name);
    text.append("|");
    text.append(body);
    let d = sha256(text.as_str().as_bytes());
    let mut first: Vec<u8> = Vec::new();
    let mut i: usize = 0;
    while i < 8
        invariant
            i <= 8,
            d@.len() == 32,
            first@ == d@.take(i as int),
        decreases 8 - i,
    {
        first.push(d[i]);
        assert(first@ =~= d@.take(i as int + 1));
        i = i + 1;
    }
    hex_encode(first.as_slice())
}

/// An episode is ingested when forced, or when its hash is not in the journal.
pub fn should_ingest(hash: &str, journal: &Vec<String>, force: bool) -> (b: bool)
    ensures
        b == (force || !journal.deep_view().contains(hash@)),
{
    force || !has_string(journal, hash)
}
/// The seed documents: name, source and body.
pub open spec fn seed_docs_spec() -> Seq<(Seq<char>, Seq<char>, Seq<char>)> {
    seq![
        ("AstralMaris Council Architecture"@, "council:architecture"@, "The AstralMaris Council is a multi-agent system with agents: Aleph (infrastructure), Thales (architecture), Luban (inference), Laozi-Jung (witness/patterns), Mataya (design), Ogma (security). Communication via ming-qiao messaging bridge over NATS JetStream. Knowledge stored in ORACLE/Graphiti knowledge graph backed by FalkorDB."@),
        ("AstralMaris Technology Stack"@, "council:technology"@, "Primary stack: Rust (systems/backend/CLI), TypeScript + Svelte (frontend). Inference: Ollama with qwen3:8b for extraction, nomic-embed-text for embeddings. Model modification: LoRA, distillation, model merging (TIES/DARE/SLERP) targeting 1-3B models. Base model: Qwen2.5-3B-Instruct."@),
        ("ORACLE Knowledge Graph"@, "council:oracle"@, "ORACLE is the research intelligence knowledge graph. Architecture: Gmail/arXiv papers ingested via MCP into Graphiti server backed by FalkorDB. Graph stats: ~800 nodes, ~1800 relationships, ~80 episodes. Models: qwen3:8b for extraction, nomic-embed-text (768d) for embeddings via Ollama."@),
        ("AstralMaris Research Foundations"@, "council:research"@, "Core research areas: model composition (LoRA adapter merging vs joint training), small language model optimization, mixture of experts, knowledge distillation. Key finding from ATLAS-01: adapter merging fails for factual knowledge across all configs (linear/TIES/DARE), but joint training on curated domain bundles preserves accuracy."@),
    ]
}

/// The seed documents: name, source and body.
pub fn seed_docs() -> (r: Vec<(&'static str, &'static str, &'static str)>)
    ensures
        r@.map_values(|d: (&'static str, &'static str, &'static str)| (d.0@, d.1@, d.2@)) == seed_docs_spec(),
{
    let r = vec![
        ("AstralMaris Council Architecture", "council:architecture", "The AstralMaris Council is a multi-agent system with agents: Aleph (infrastructure), Thales (architecture), Luban (inference), Laozi-Jung (witness/patterns), Mataya (design), Ogma (security). Communication via ming-qiao messaging bridge over NATS JetStream. Knowledge stored in ORACLE/Graphiti knowledge graph backed by FalkorDB."),
        ("AstralMaris Technology Stack", "council:technology", "Primary stack: Rust (systems/backend/CLI), TypeScript + Svelte (frontend). Inference: Ollama with qwen3:8b for extraction, nomic-embed-text for embeddings. Model modification: LoRA, distillation, model merging (TIES/DARE/SLERP) targeting 1-3B models. Base model: Qwen2.5-3B-Instruct."),
        ("ORACLE Knowledge Graph", "council:oracle", "ORACLE is the research intelligence knowledge graph. Architecture: Gmail/arXiv papers ingested via MCP into Graphiti server backed by FalkorDB. Graph stats: ~800 nodes, ~1800 relationships, ~80 episodes. Models: qwen3:8b for extraction, nomic-embed-text (768d) for embeddings via Ollama."),
        ("AstralMaris Research Foundations", "council:research", "Core research areas: model composition (LoRA adapter merging vs joint training), small language model optimization, mixture of experts, knowledge distillation. Key finding from ATLAS-01: adapter merging fails for factual knowledge across all configs (linear/TIES/DARE), but joint training on curated domain bundles preserves accuracy."),
    ];
    assert(r@.map_values(|d: (&'static str, &'static str, &'static str)| (d.0@, d.1@, d.2@)) =~= seed_docs_spec());
    r
}

/// An arXiv paper as the pipeline ingests it.
#[derive(Debug, Clone)]
pub struct ArxivPaper {
    pub arxiv_id: String,
    pub title: String,
    pub authors: String,
    pub abstract_text: String,
}

/// The episode of a paper: its name, body and source description.
pub open spec fn paper_episode_spec(id: Seq<char>, title: Seq<char>, authors: Seq<char>, abs: Seq<char>) -> (
    Seq<char>,
    Seq<char>,
    Seq<char>,
) {
    (
        "[arXiv:"@ + id + "] "@ + title,
        "Title: "@ + title + "\nAuthors: "@ + authors + "\nArXiv ID: "@ + id + "\n\nAbstract:\n"@ + abs,
        "arxiv:"@ + id,
    )
}

/// The episode of a paper (see `paper_episode_spec`).
pub fn paper_episode(p: &ArxivPaper) -> (r: (String, String, String))
    ensures
        (r.0@, r.1@, r.2@) == paper_episode_spec(p.arxiv_id@, p.title@, p.authors@, p.abstract_text@),
{
    let mut name = String::from_str("[arXiv:");
    name.append(p.arxiv_id.as_str());
    name.append("] ");
    name.append(p.title.as_str());
    let mut body = String::from_str("Title: ");
    body.append(p.title.as_str());
    body.append("\nAuthors: ");
    body.append(p.authors.as_str());
    body.append("\nArXiv ID: ");
    body.append(p.arxiv_id.as_str());
    body.append("\n\nAbstract:\n");
    body.append(p.abstract_text.as_str());
    let mut source = String::from_str("arxiv:");
    source.append(p.arxiv_id.as_str());
    (name, body, source)
}

/// The authors of a paper as one line: all of them, or the first five and
/// the count when there are more.
pub open spec fn authors_line(authors: Seq<Seq<char>>) -> Seq<char> {
    if authors.len() > 5 {
        join_spec(authors.take(5), ", "@) + " et al. ("@ + decimal_spec(authors.len()) + " authors)"@
    } else {
        join_spec(authors, ", "@)
    }
}

/// The authors of a paper as one line (see `authors_line`).
pub fn paper_authors(authors: &Vec<String>) -> (r: String)
    ensures
        r@ == authors_line(authors.deep_view()),
{
    if authors.len() > 5 {
        let mut first: Vec<String> = Vec::new();
        let mut i: usize = 0;
        while i < 5
            invariant
                i <= 5,
                authors@.len() > 5,
                first.deep_view() == authors.deep_view().take(i as int),
            decreases 5 - i,
        {
            let a = authors[i].clone();
            assert(a@ == authors.deep_view()[i as int]);
            let ghost before = first.deep_view();
            first.push(a);
            assert(first.deep_view() =~= before.push(a@));
            assert(authors.deep_view().take(i as int + 1) =~= authors.deep_view().take(i as int).push(a@));
            i = i + 1;
        }
        let mut r = join(&first, ", ");
        r.append(" et al. (");
        let n = decimal_u64(authors.len() as u64);
        r.append(n.as_str());
        r.append(" authors)");
        r
    } else {
        join(authors, ", ")
    }
}

/// The length of the version suffix (`v` and digits) at `j` of `s`, if any.
pub open spec fn version_len_at(s: Seq<char>, j: int) -> int {
    if 0 <= j && j + 1 < s.len() && s[j] == 'v' && is_digit(s[j + 1]) {
        1 + run_of(s, j + 1, class_pred(Class::Digit))
    } else {
        0
    }
}

/// The first arXiv id in `s`, with its version suffix when it has one.
pub open spec fn versioned_id_spec(s: Seq<char>) -> Option<Seq<char>> {
    if exists|i: int| 0 <= i && id_len_at(s, i) > 0 && forall|j: int| 0 <= j < i ==> id_len_at(s, j) == 0 {
        let i = choose|i: int| 0 <= i && id_len_at(s, i) > 0 && forall|j: int| 0 <= j < i ==> id_len_at(s, j) == 0;
        let n = id_len_at(s, i);
        Some(s.subrange(i, i + n + version_len_at(s, i + n)))
    } else {
        None
    }
}

proof fn lemma_first_id_unique(s: Seq<char>, a: int, b: int)
    requires
        0 <= a && id_len_at(s, a) > 0 && forall|j: int| 0 <= j < a ==> id_len_at(s, j) == 0,
        0 <= b && id_len_at(s, b) > 0 && forall|j: int| 0 <= j < b ==> id_len_at(s, j) == 0,
    ensures
        a == b,
{
    if a < b {
        assert(id_len_at(s, a) == 0);
    } else if b < a {
        assert(id_len_at(s, b) == 0);
    }
}

/// The first arXiv id in `text`, with its version suffix.
pub fn versioned_id(text: &str) -> (r: Option<String>)
    ensures
        match r {
            Some(id) => versioned_id_spec(text@) == Some(id@),
            None => versioned_id_spec(text@) is None,
        },
{
    let v = to_chars(text);
    let mut i: usize = 0;
    while i < v.len()
        invariant
            v@ == text@,
            i <= v@.len(),
            forall|j: int| 0 <= j < i ==> id_len_at(v@, j) == 0,
        decreases v@.len() - i,
    {
        let n = id_len_at_exec(&v, i);
        if n > 0 {
            let j = i + n;
            let mut m: usize = 0;
            if j < v.len() && v.len() - j > 1 && v[j] == 'v' && digit_char(v[j + 1]) {
                let d = run_len(&v, j + 1, Class::Digit);
                m = 1 + d;
            }
            assert(m as int == version_len_at(v@, j as int));
            proof {
                assert(0 <= i && id_len_at(v@, i as int) > 0 && forall|k: int| 0 <= k < i ==> id_len_at(v@, k) == 0);
                let c = choose|c: int| 0 <= c && id_len_at(v@, c) > 0 && forall|k: int| 0 <= k < c ==> id_len_at(v@, k) == 0;
                lemma_first_id_unique(v@, c, i as int);
            }
            let r = string_of(&v, i, j + m);
            return Some(r);
        }
        i = i + 1;
    }
    proof {
        assert forall|c: int| !(0 <= c && id_len_at(v@, c) > 0 && forall|k: int| 0 <= k < c ==> id_len_at(v@, k) == 0) by {
            if 0 <= c && id_len_at(v@, c) > 0 {
                assert(c + 9 <= v@.len());
            }
        }
    }
    None
}

/// The state of reading the papers of an arXiv API feed.
pub struct PaperState {
    pub in_entry: bool,
    pub tag: Seq<char>,
    pub title: Seq<char>,
    pub summary: Seq<char>,
    pub id: Seq<char>,
    pub authors: Seq<Seq<char>>,
    pub papers: Seq<(Seq<char>, Seq<char>, Seq<char>, Seq<char>)>,
}

/// The state before the first event.
pub open spec fn paper_start() -> PaperState {
    PaperState {
        in_entry: false,
        tag: Seq::empty(),
        title: Seq::empty(),
        summary: Seq::empty(),
        id: Seq::empty(),
        authors: Seq::empty(),
        papers: Seq::empty(),
    }
}

/// What one event does to the state, and whether reading goes on: an
/// `entry` start opens a fresh paper; inside an entry, start tags name the
/// current element, whose text adds to the title or the summary, adds an
/// author (`name`), or sets the id (`id`, its first arXiv id); an `entry`
/// end keeps the paper when it has a title and an id. The end of the
/// document and errors stop the reading.
pub open spec fn paper_step(st: PaperState, ev: XmlEvent) -> (PaperState, bool) {
    match ev {
        XmlEvent::Start(n) => {
            let fresh = if n@ == "entry"@ {
                PaperState {
                    in_entry: true,
                    title: Seq::empty(),
                    summary: Seq::empty(),
                    id: Seq::empty(),
                    authors: Seq::empty(),
                    ..st
                }
            } else {
                st
            };
            (if fresh.in_entry { PaperState { tag: n@, ..fresh } } else { fresh }, true)
        },
        XmlEvent::Text(x) => {
            if !st.in_entry {
                (st, true)
            } else if st.tag == "title"@ {
                (PaperState { title: st.title + x@, ..st }, true)
            } else if st.tag == "summary"@ {
                (PaperState { summary: st.summary + x@, ..st }, true)
            } else if st.tag == "name"@ {
                (PaperState { authors: st.authors.push(trim_spec(x@)), ..st }, true)
            } else if st.tag == "id"@ {
                match versioned_id_spec(x@) {
                    Some(m) => (PaperState { id: m, ..st }, true),
                    None => (st, true),
                }
            } else {
                (st, true)
            }
        },
        XmlEvent::End(n) => {
            if n@ == "entry"@ && st.in_entry {
                let papers = if st.title.len() > 0 && st.id.len() > 0 {
                    st.papers.push((trim_spec(st.id), squeeze(st.title), authors_line(st.authors), squeeze(st.summary)))
                } else {
                    st.papers
                };
                (PaperState { in_entry: false, papers, ..st }, true)
            } else {
                (st, true)
            }
        },
        XmlEvent::Eof => (st, false),
        XmlEvent::Error(_) => (st, false),
        _ => (st, true),
    }
}

/// The state after the events `evs`, when each of them lets reading go on.
pub open spec fn paper_prefix(evs: Seq<XmlEvent>) -> Option<PaperState>
    decreases evs.len(),
{
    if evs.len() == 0 {
        Some(paper_start())
    } else {
        match paper_prefix(evs.drop_last()) {
            Some(s) => {
                let (s2, go) = paper_step(s, evs.last());
                if go {
                    Some(s2)
                } else {
                    None
                }
            },
            None => None,
        }
    }
}

/// The papers read from the events `evs[i..]`, from the state `st`, in
/// order until one stops the reading (running out of events stops it too).
pub open spec fn papers_run(evs: Seq<XmlEvent>, i: int, st: PaperState) -> Seq<(Seq<char>, Seq<char>, Seq<char>, Seq<char>)>
    decreases evs.len() - i,
{
    if i < 0 || i >= evs.len() {
        st.papers
    } else {
        let (s2, go) = paper_step(st, evs[i]);
        if go {
            papers_run(evs, i + 1, s2)
        } else {
            s2.papers
        }
    }
}

proof fn lemma_papers_prefix(evs: Seq<XmlEvent>, k: int, s: PaperState)
    requires
        0 <= k <= evs.len(),
        paper_prefix(evs.take(k)) == Some(s),
    ensures
        papers_run(evs, 0, paper_start()) == papers_run(evs, k, s),
    decreases k,
{
    if k > 0 {
        assert(evs.take(k).drop_last() =~= evs.take(k - 1));
        assert(evs.take(k).last() == evs[k - 1]);
        let sp = paper_prefix(evs.take(k - 1)).unwrap();
        lemma_papers_prefix(evs, k - 1, sp);
    }
}

/// The papers as plain values.
pub open spec fn papers_view(p: Seq<ArxivPaper>) -> Seq<(Seq<char>, Seq<char>, Seq<char>, Seq<char>)> {
    p.map_values(|x: ArxivPaper| (x.arxiv_id@, x.title@, x.authors@, x.abstract_text@))
}

/// The reading state as the running code holds it.
struct PaperReader {
    in_entry: bool,
    tag: String,
    title: String,
    summary: String,
    id: String,
    authors: Vec<String>,
    papers: Vec<ArxivPaper>,
}

impl PaperReader {
    closed spec fn view_state(&self) -> PaperState {
        PaperState {
            in_entry: self.in_entry,
            tag: self.tag@,
            title: self.title@,
            summary: self.summary@,
            id: self.id@,
            authors: self.authors.deep_view(),
            papers: papers_view(self.papers@),
        }
    }

    fn new() -> (r: Self)
        ensures
            r.view_state() == paper_start(),
    {
        let r = PaperReader {
            in_entry: false,
            tag: String::new(),
            title: String::new(),
            summary: String::new(),
            id: String::new(),
            authors: Vec::new(),
            papers: Vec::new(),
        };
        assert(r.view_state().authors =~= Seq::<Seq<char>>::empty());
        assert(r.view_state().papers =~= Seq::empty());
        r
    }

    fn step(&mut self, ev: &XmlEvent) -> (go: bool)
        ensures
            final(self).view_state() == paper_step(old(self).view_state(), *ev).0,
            go == paper_step(old(self).view_state(), *ev).1,
    {
        let ghost st = self.view_state();
        match ev {
            XmlEvent::Start(n) => {
                if str_eq(n.as_str(), "entry") {
                    self.in_entry = true;
                    self.title = String::new();
                    self.summary = String::new();
                    self.id = String::new();
                    self.authors = Vec::new();
                    assert(self.authors.deep_view() =~= Seq::<Seq<char>>::empty());
                }
                if self.in_entry {
                    self.tag = n.clone();
                }
                true
            },
            XmlEvent::Text(x) => {
                if !self.in_entry {
                } else if str_eq(self.tag.as_str(), "title") {
                    self.title.append(x.as_str());
                } else if str_eq(self.tag.as_str(), "summary") {
                    self.summary.append(x.as_str());
                } else if str_eq(self.tag.as_str(), "name") {
                    let ghost before = self.authors.deep_view();
                    self.authors.push(trim(x.as_str()));
                    assert(self.authors.deep_view() =~= before.push(trim_spec(x@)));
                } else if str_eq(self.tag.as_str(), "id") {
                    match versioned_id(x.as_str()) {
                        Some(m) => {
                            self.id = m;
                        },
                        None => {},
                    }
                }
                true
            },
            XmlEvent::End(n) => {
                if str_eq(n.as_str(), "entry") && self.in_entry {
                    self.in_entry = false;
                    if !self.title.as_str().is_empty() && !self.id.as_str().is_empty() {
                        let tw = split_whitespace(self.title.as_str());
                        let sw = split_whitespace(self.summary.as_str());
                        let p = ArxivPaper {
                            arxiv_id: trim(self.id.as_str()),
                            title: join(&tw, " "),
                            authors: paper_authors(&self.authors),
                            abstract_text: join(&sw, " "),
                        };
                        let ghost before = self.papers@;
                        self.papers.push(p);
                        assert(papers_view(self.papers@) =~= papers_view(before).push(
                            (trim_spec(st.id), squeeze(st.title), authors_line(st.authors), squeeze(st.summary)),
                        ));
                    }
                }
                true
            },
            XmlEvent::Eof => false,
            XmlEvent::Error(_) => false,
            _ => true,
        }
    }
}

/// Reads papers from the events of an arXiv API feed, in order, until one
/// stops the reading (see `paper_step`).
pub fn papers_from_events(events: &Vec<XmlEvent>) -> (r: Vec<ArxivPaper>)
    ensures
        papers_view(r@) == papers_run(events@, 0, paper_start()),
{
    let mut rd = PaperReader::new();
    let mut i: usize = 0;
    assert(events@.take(0) =~= Seq::<XmlEvent>::empty());
    while i < events.len()
        invariant
            i <= events@.len(),
            paper_prefix(events@.take(i as int)) == Some(rd.view_state()),
        decreases events@.len() - i,
    {
        let ghost before = rd.view_state();
        proof {
            assert(events@.take(i + 1).drop_last() =~= events@.take(i as int));
            assert(events@.take(i + 1).last() == events@[i as int]);
            lemma_papers_prefix(events@, i as int, before);
        }
        let go = rd.step(&events[i]);
        if !go {
            return rd.papers;
        }
        i = i + 1;
    }
    proof {
        assert(events@.take(i as int) =~= events@);
        lemma_papers_prefix(events@, i as int, rd.view_state());
    }
    rd.papers
}

/// Reads the papers of an arXiv API feed: those that the events read from
/// `xml` give (see `paper_step`; the reader trims character data and drops
/// the blank ones; at most one event per character and the end are read).
pub fn parse_arxiv_papers(xml: &str) -> (r: Vec<ArxivPaper>)
    ensures
        papers_view(r@) == papers_run(xml_events(xml@, true, xml@.len() + 1), 0, paper_start()),
{
    let n = xml.unicode_len();
    let ghost full = xml_events(xml@, true, xml@.len() + 1);
    let mut src = xml_reader(xml);
    trim_xml_text(&mut src);
    let mut rd = PaperReader::new();
    let mut left = n;
    assert(full.take(0) =~= Seq::<XmlEvent>::empty());
    loop
        invariant
            n == xml@.len(),
            full == xml_events(xml@, true, xml@.len() + 1),
            src.text() == xml@,
            src.trims(),
            src.read() + left == n,
            paper_prefix(full.take(src.read() as int)) == Some(rd.view_state()),
        decreases left,
    {
        let ghost k = src.read() as int;
        let ghost before = rd.view_state();
        let ev = next_xml_event(&mut src);
        proof {
            assert(ev == full[k]);
            assert(full.take(k + 1).drop_last() =~= full.take(k));
            assert(full.take(k + 1).last() == ev);
            lemma_papers_prefix(full, k, before);
        }
        let go = rd.step(&ev);
        if !go {
            return rd.papers;
        }
        if left == 0 {
            proof {
                assert(full.take(k + 1) =~= full);
                lemma_papers_prefix(full, k + 1, rd.view_state());
            }
            return rd.papers;
        }
        left = left - 1;
    }
}

/// A byte that a URL carries as it is: ASCII letters, digits, `-`, `.`,
/// `_` and `~`.
pub open spec fn url_unreserved(b: u8) -> bool {
    (0x41 <= b <= 0x5a) || (0x61 <= b <= 0x7a) || (0x30 <= b <= 0x39) || b == 0x2d || b == 0x2e || b == 0x5f || b == 0x7e
}

/// An upper-case hex digit.
pub open spec fn hex_upper(n: int) -> char {
    if n < 10 { ((n + 48) as u8) as char } else { ((n + 55) as u8) as char }
}

/// The percent-encoding of `bytes`: unreserved bytes as themselves, every
/// other byte as `%` and two upper-case hex digits.
pub open spec fn percent_encoded(bytes: Seq<u8>) -> Seq<char>
    decreases bytes.len(),
{
    if bytes.len() == 0 {
        Seq::empty()
    } else {
        let b = bytes.last();
        let tail = if url_unreserved(b) {
            seq![b as char]
        } else {
            seq!['%', hex_upper(b as int / 16), hex_upper(b as int % 16)]
        };
        percent_encoded(bytes.drop_last()) + tail
    }
}

fn hex_upper_exec(n: u8) -> (c: char)
    requires
        n < 16,
    ensures
        c == hex_upper(n as int),
{
    if n < 10 {
        (n + 48) as char
    } else {
        (n + 55) as char
    }
}

/// Percent-encodes the UTF-8 bytes of `s` (as `urlencoding::encode` does).
pub fn url_encode(s: &str) -> (r: String)
    ensures
        r@ == percent_encoded(encode_utf8(s@)),
{
    let bytes = s.as_bytes();
    let ghost bs = encode_utf8(s@);
    assert(bytes@ == bs);
    let mut r = String::new();
    let mut i: usize = 0;
    while i < bytes.len()
        invariant
            bytes@ == bs,
            i <= bs.len(),
            r@ == percent_encoded(bs.take(i as int)),
        decreases bs.len() - i,
    {
        let b = bytes[i];
        assert(bs.take(i as int + 1).drop_last() =~= bs.take(i as int));
        let ghost before = r@;
        if (0x41 <= b && b <= 0x5a) || (0x61 <= b && b <= 0x7a) || (0x30 <= b && b <= 0x39) || b == 0x2d || b == 0x2e
            || b == 0x5f || b == 0x7e {
            let c = b as char;
            push_char(&mut r, c);
            assert(r@ =~= before + seq![b as char]);
        } else {
            push_char(&mut r, '%');
            push_char(&mut r, hex_upper_exec(b / 16));
            push_char(&mut r, hex_upper_exec(b % 16));
            assert(r@ =~= before + seq!['%', hex_upper(b as int / 16), hex_upper(b as int % 16)]);
        }
        i = i + 1;
    }
    assert(bs.take(i as int) =~= bs);
    r
}

/// `ids` cut into batches of at most `n`, in order.
pub open spec fn batches(ids: Seq<Seq<char>>, n: nat) -> Seq<Seq<Seq<char>>>
    decreases ids.len(),
{
    if ids.len() == 0 || n == 0 {
        Seq::empty()
    } else if ids.len() <= n {
        seq![ids]
    } else {
        seq![ids.take(n as int)] + batches(ids.skip(n as int), n)
    }
}

/// The arXiv API query for one batch of ids.
pub open spec fn arxiv_query_url(batch: Seq<Seq<char>>) -> Seq<char> {
    "https://export.arxiv.org/api/query?id_list="@ + percent_encoded(encode_utf8(join_spec(batch, ","@)))
        + "&max_results="@ + decimal_spec(batch.len())
}

fn query_url(batch: &Vec<String>) -> (r: String)
    ensures
        r@ == arxiv_query_url(batch.deep_view()),
{
    let list = join(batch, ",");
    let enc = url_encode(list.as_str());
    let mut r = String::from_str("https://export.arxiv.org/api/query?id_list=");
    r.append(enc.as_str());
    r.append("&max_results=");
    let n = decimal_u64(batch.len() as u64);
    r.append(n.as_str());
    r
}

/// The arXiv API queries that fetch the papers `ids`, twenty per query.
pub fn arxiv_query_urls(ids: &Vec<String>) -> (r: Vec<String>)
    ensures
        r.deep_view() == batches(ids.deep_view(), 20).map_values(|b: Seq<Seq<char>>| arxiv_query_url(b)),
{
    let ghost s = ids.deep_view();
    let ghost f = |b: Seq<Seq<char>>| arxiv_query_url(b);
    let mut out: Vec<String> = Vec::new();
    let mut start: usize = 0;
    assert(s.skip(0) =~= s);
    while start < ids.len()
        invariant
            s == ids.deep_view(),
            f == (|b: Seq<Seq<char>>| arxiv_query_url(b)),
            start <= s.len(),
            out.deep_view() + batches(s.skip(start as int), 20).map_values(f) == batches(s, 20).map_values(f),
        decreases s.len() - start,
    {
        let end: usize = if ids.len() - start > 20 { start + 20 } else { ids.len() };
        let mut batch: Vec<String> = Vec::new();
        let mut k: usize = start;
        while k < end
            invariant
                s == ids.deep_view(),
                start <= k <= end <= s.len(),
                batch.deep_view() == s.subrange(start as int, k as int),
            decreases end - k,
        {
            let x = ids[k].clone();
            assert(x@ == s[k as int]);
            let ghost before = batch.deep_view();
            batch.push(x);
            assert(batch.deep_view() =~= before.push(x@));
            assert(s.subrange(start as int, k + 1) =~= s.subrange(start as int, k as int).push(x@));
            k = k + 1;
        }
        let url = query_url(&batch);
        let ghost rest = s.skip(start as int);
        let ghost before = out.deep_view();
        proof {
            if rest.len() <= 20 {
                assert(rest =~= s.subrange(start as int, end as int));
                assert(s.skip(end as int) =~= Seq::<Seq<char>>::empty());
                assert(batches(s.skip(end as int), 20) =~= Seq::<Seq<Seq<char>>>::empty());
            } else {
                assert(rest.take(20) =~= s.subrange(start as int, end as int));
                assert(rest.skip(20) =~= s.skip(end as int));
            }
            assert(batches(rest, 20) =~= seq![s.subrange(start as int, end as int)] + batches(s.skip(end as int), 20));
            assert(batches(rest, 20).map_values(f) =~= seq![f(s.subrange(start as int, end as int))] + batches(
                s.skip(end as int),
                20,
            ).map_values(f));
        }
        out.push(url);
        assert(out.deep_view() =~= before.push(f(s.subrange(start as int, end as int))));
        assert(out.deep_view() + batches(s.skip(end as int), 20).map_values(f) =~= before + batches(rest, 20).map_values(f));
        start = end;
    }
    assert(batches(s.skip(start as int), 20) =~= Seq::<Seq<Seq<char>>>::empty());
    assert(out.deep_view() + batches(s.skip(start as int), 20).map_values(f) =~= out.deep_view());
    out
}

/// `name` with every trailing `.md` removed.
pub open spec fn without_md(name: Seq<char>) -> Seq<char>
    decreases name.len(),
{
    if name.len() >= 3 && name.subrange(name.len() - 3, name.len() as int) == ".md"@ {
        without_md(name.subrange(0, name.len() - 3))
    } else {
        name
    }
}

/// A log entry is ingested again when it was modified (`mtime`, in seconds)
/// after the time recorded for it (none counts as 0).
pub fn log_entry_due(mtime: i64, recorded: Option<i64>) -> (b: bool)
    ensures
        b == (mtime > match recorded {
            Some(t) => t,
            None => 0,
        }),
{
    let prev: i64 = match recorded {
        Some(t) => t,
        None => 0,
    };
    mtime > prev
}

/// The episode name and source description of a captain's log file.
pub fn captains_log_episode(filename: &str) -> (r: (String, String))
    ensures
        r.0@ == "Captain's Log: "@ + without_md(filename@),
        r.1@ == "captains-log:"@ + filename@,
{
    proof {
        reveal_strlit(".md");
    }
    let v = to_chars(filename);
    let mut end: usize = v.len();
    assert(v@.subrange(0, end as int) =~= v@);
    while end >= 3 && v[end - 3] == '.' && v[end - 2] == 'm' && v[end - 1] == 'd'
        invariant
            end <= v@.len(),
            v@ == filename@,
            without_md(v@.subrange(0, end as int)) == without_md(filename@),
        decreases end,
    {
        let ghost w = v@.subrange(0, end as int);
        proof {
            reveal_strlit(".md");
        }
        assert(w.subrange(w.len() - 3, w.len() as int) =~= ".md"@);
        assert(w.subrange(0, w.len() - 3) =~= v@.subrange(0, end - 3));
        end = end - 3;
    }
    proof {
        reveal_strlit(".md");
        let w = v@.subrange(0, end as int);
        if w.len() >= 3 && w.subrange(w.len() - 3, w.len() as int) == ".md"@ {
            let t = w.subrange(w.len() - 3, w.len() as int);
            assert(t[0] == '.' && t[1] == 'm' && t[2] == 'd');
            assert(t[0] == w[w.len() - 3] && t[1] == w[w.len() - 2] && t[2] == w[w.len() - 1]);
        }
    }
    let stem = string_of(&v, 0, end);
    let mut name = String::from_str("Captain's Log: ");
    name.append(stem.as_str());
    let mut source = String::from_str("captains-log:");
    source.append(filename);
    (name, source)
}

/// Subject words that mark a thread as a decision worth ingesting.
pub open spec fn decision_keywords() -> Seq<Seq<char>> {
    seq![
        "directive"@, "decision"@, "architecture"@, "gate"@, "security"@, "phase"@, "colloquium"@, "founding"@,
        "magna carta"@, "design brief"@,
    ]
}

/// A thread is ingested when it has an id not ingested yet and its subject
/// (lower-cased) holds a decision keyword.
pub open spec fn thread_wanted_spec(thread_id: Seq<char>, ingested: Seq<Seq<char>>, subject_lower: Seq<char>) -> bool {
    &&& thread_id.len() > 0
    &&& !ingested.contains(thread_id)
    &&& exists|i: int| 0 <= i < decision_keywords().len() && contains_spec(subject_lower, #[trigger] decision_keywords()[i])
}

/// Whether a thread is ingested (see `thread_wanted_spec`).
pub fn thread_wanted(thread_id: &str, ingested: &Vec<String>, subject_lower: &str) -> (b: bool)
    ensures
        b == thread_wanted_spec(thread_id@, ingested.deep_view(), subject_lower@),
{
    if thread_id.is_empty() || has_string(ingested, thread_id) {
        return false;
    }
    let kws = vec![
        "directive", "decision", "architecture", "gate", "security", "phase", "colloquium", "founding", "magna carta",
        "design brief",
    ];
    let ghost ks = kws@.map_values(|k: &str| k@);
    assert(ks =~= decision_keywords());
    let mut i: usize = 0;
    while i < kws.len()
        invariant
            ks == kws@.map_values(|k: &str| k@),
            ks == decision_keywords(),
            thread_id@.len() > 0,
            !ingested.deep_view().contains(thread_id@),
            i <= ks.len(),
            forall|j: int| 0 <= j < i ==> !contains_spec(subject_lower@, #[trigger] decision_keywords()[j]),
        decreases ks.len() - i,
    {
        assert(ks[i as int] == kws[i as int]@);
        if contains_str(subject_lower, kws[i]) {
            return true;
        }
        i = i + 1;
    }
    false
}

/// The transcript of a thread: a heading with its subject, then each
/// message (sender, content) under the sender's name.
pub open spec fn transcript_spec(subject: Seq<char>, msgs: Seq<(String, String)>) -> Seq<char>
    decreases msgs.len(),
{
    if msgs.len() == 0 {
        "# Thread: "@ + subject + "\n\n"@
    } else {
        transcript_spec(subject, msgs.drop_last()) + "## "@ + msgs.last().0@ + "\n"@ + msgs.last().1@ + "\n\n"@
    }
}

/// The transcript of a thread (see `transcript_spec`).
pub fn thread_transcript(subject: &str, msgs: &Vec<(String, String)>) -> (r: String)
    ensures
        r@ == transcript_spec(subject@, msgs@),
{
    let mut r = String::from_str("# Thread: ");
    r.append(subject);
    r.append("\n\n");
    let mut i: usize = 0;
    while i < msgs.len()
        invariant
            i <= msgs@.len(),
            r@ == transcript_spec(subject@, msgs@.take(i as int)),
        decreases msgs@.len() - i,
    {
        assert(msgs@.take(i as int + 1).drop_last() =~= msgs@.take(i as int));
        r.append("## ");
        r.append(msgs[i].0.as_str());
        r.append("\n");
        r.append(msgs[i].1.as_str());
        r.append("\n\n");
        i = i + 1;
    }
    assert(msgs@.take(i as int) =~= msgs@);
    r
}

/// The episode name and source description of a thread.
pub fn thread_episode(subject: &str, thread_id: &str) -> (r: (String, String))
    ensures
        r.0@ == "Thread: "@ + subject@,
        r.1@ == "thread:"@ + thread_id@,
{
    let mut name = String::from_str("Thread: ");
    name.append(subject);
    let mut source = String::from_str("thread:");
    source.append(thread_id);
    (name, source)
}

} // verus!
