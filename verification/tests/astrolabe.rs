use base64::Engine;
use ming_qiao::astrolabe::arxiv::{category_tag, extract_arxiv_id, format_authors, ArxivUrlProcessor};
use ming_qiao::astrolabe::atom::parse_arxiv_response;
use ming_qiao::astrolabe::dedup::{normalize_url, DedupEngine, DedupEntry, EnvelopeFields};
use ming_qiao::astrolabe::envelope::{build_envelope, EnvelopeBuilder};
use ming_qiao::astrolabe::pdf::{
    decode_attachment_data, extract_pdf_text, infer_title, ArxivPdfProcessor, PdfGenericProcessor,
};
use ming_qiao::astrolabe::processor::{utc_now, Attachment, MetaValue, ProcessorResult, RawArtifact};
use ming_qiao::astrolabe::web::{domain_tags, extract_content};
use ming_qiao::astrolabe::xpost::{classify_url, engagement_terms, XPostProcessor};
use ming_qiao::events::schema::Timestamp;
use ming_qiao::strmap::StrMap;
use ming_qiao::astrolabe::registry::{ProcessorKind, ProcessorRegistry};

fn artifact(source_type: &str, subject: &str, body: &str, message_id: &str, attachments: Vec<Attachment>) -> RawArtifact {
    RawArtifact {
        source_type: source_type.to_string(),
        subject: subject.to_string(),
        body: body.to_string(),
        message_id: message_id.to_string(),
        date: String::new(),
        attachments,
        metadata: StrMap::new(),
    }
}

fn text_meta(m: &StrMap<MetaValue>, key: &str) -> Option<String> {
    match m.get(key) {
        Some(MetaValue::Text(s)) => Some(s.clone()),
        _ => None,
    }
}

/// Engagement counts as the app computes them: numbers read as decimals,
/// scaled by their suffix; a later count of a metric replaces an earlier one.
fn engagement_of(text: &str) -> Vec<(String, i64)> {
    let mut out: Vec<(String, i64)> = Vec::new();
    for t in engagement_terms(text) {
        if let Ok(n) = t.number.parse::<f64>() {
            let v = (n * t.multiplier as f64) as i64;
            out.retain(|(k, _)| *k != t.key);
            out.push((t.key.clone(), v));
        }
    }
    out
}

fn engagement_value(counts: &[(String, i64)], key: &str) -> Option<i64> {
    counts.iter().find(|(k, _)| k == key).map(|(_, v)| *v)
}

#[test]
fn normalize_url_basics() {
    assert_eq!(normalize_url("https://example.com/"), "https://example.com");
    assert_eq!(normalize_url("https://twitter.com/user/status/123"), "https://x.com/user/status/123");
    assert_eq!(normalize_url("https://example.com/page?utm_source=test"), "https://example.com/page");
    assert_eq!(normalize_url("https://arxiv.org/abs/2401.12345?v=2"), "https://arxiv.org/abs/2401.12345?v=2");
}

#[test]
fn normalize_url_case_insensitive() {
    assert_eq!(normalize_url("HTTPS://EXAMPLE.COM/Page"), "https://example.com/page");
}

fn fields(hash: &str, url: &str, source_type: &str, arxiv: Option<&str>, id: &str, title: &str) -> EnvelopeFields {
    EnvelopeFields {
        post_sanitization_hash: Some(hash.to_string()),
        source_url: Some(url.to_string()),
        source_type: Some(source_type.to_string()),
        arxiv_id: arxiv.map(|a| a.to_string()),
        envelope_id: Some(id.to_string()),
        title: Some(title.to_string()),
        created_at: Some("2026-03-15T12:00:00Z".to_string()),
    }
}

#[test]
fn dedup_engine_empty() {
    let engine = DedupEngine::new("dedup-index.jsonl".to_string(), &Vec::new());
    assert!(!engine.is_duplicate(Some("abc123"), None, None));
    let stats = engine.stats();
    assert_eq!(stats.hashes, 0);
}

#[test]
fn dedup_engine_record_and_check() {
    let mut engine = DedupEngine::new("dedup-index.jsonl".to_string(), &Vec::new());
    let env = fields(
        "abc123def456",
        "https://arxiv.org/abs/2401.12345",
        "arxiv-url",
        Some("2401.12345"),
        "arxiv-url-abc123def456",
        "Test Paper Title",
    );
    engine.record(&env);
    assert!(engine.is_duplicate(Some("abc123def456"), None, None));
    assert!(engine.is_duplicate(None, Some("2401.12345"), None));
    assert!(engine.is_duplicate(None, None, Some("https://arxiv.org/abs/2401.12345")));
    assert!(!engine.is_duplicate(Some("other"), None, None));
    let stats = engine.stats();
    assert_eq!(stats.hashes, 1);
    assert_eq!(stats.arxiv_ids, 1);
    assert_eq!(stats.urls, 1);
}

#[test]
fn dedup_engine_persistence() {
    let mut index: Vec<DedupEntry> = Vec::new();
    {
        let mut engine = DedupEngine::new("dedup-index.jsonl".to_string(), &index);
        let env = fields(
            "persist_test",
            "https://example.com/article",
            "web-article",
            None,
            "web-article-persist_test",
            "Persistence Test",
        );
        index.push(engine.record(&env));
    }
    let engine2 = DedupEngine::new("dedup-index.jsonl".to_string(), &index);
    assert!(engine2.is_duplicate(Some("persist_test"), None, None));
    assert!(engine2.is_duplicate(None, None, Some("https://example.com/article")));
}

#[test]
fn dedup_record_keeps_arxiv_id_only_for_arxiv_sources() {
    let mut engine = DedupEngine::new("i.jsonl".to_string(), &Vec::new());
    let env = fields("h1", "https://example.com/a", "web-article", Some("2401.00001"), "e", "T");
    let entry = engine.record(&env);
    assert_eq!(entry.arxiv_id, "");
    assert!(!engine.is_duplicate(None, Some("2401.00001"), None));
    assert!(engine.is_duplicate(None, None, Some("HTTPS://EXAMPLE.COM/a/")));
}

fn sample_result() -> ProcessorResult {
    let now = utc_now();
    let mut metadata = StrMap::new();
    metadata.insert("arxiv_id", MetaValue::Text("2401.12345".to_string()));
    metadata.insert("authors", MetaValue::Text("Alice, Bob".to_string()));
    ProcessorResult {
        title: "Test Paper".to_string(),
        content: "This is test content about machine learning".to_string(),
        source_url: "https://arxiv.org/abs/2401.12345".to_string(),
        source_type: "arxiv-url".to_string(),
        processor_version: "1.0.0".to_string(),
        domain_tags: vec!["research".to_string(), "machine-learning".to_string()],
        metadata,
        embedded_artifacts: vec![],
        fetched_at: now,
        processed_at: now,
    }
}

#[test]
fn test_build_envelope() {
    let result = sample_result();
    let envelope = build_envelope(&result);
    assert_eq!(envelope.schema_version, "1.0.0");
    assert_eq!(envelope.enrichment_status, "quarantined");
    assert!(envelope.envelope_id.starts_with("arxiv-url-"));
    assert_eq!(envelope.post_sanitization_hash.len(), 16);
    assert_eq!(envelope.content_hash_sha256.len(), 64);
    assert!(envelope.episode_body.contains("Title: Test Paper"));
    assert!(envelope.episode_body.contains("Authors: Alice, Bob"));
}

#[test]
fn test_envelope_episode_body_exact() {
    let result = sample_result();
    let envelope = build_envelope(&result);
    assert_eq!(
        envelope.episode_body,
        "Title: Test Paper\nAuthors: Alice, Bob\n\nThis is test content about machine learning\n\nDomain: research, machine-learning"
    );
    assert_eq!(envelope.post_sanitization_hash, envelope.content_hash_sha256[..16]);
    assert_eq!(envelope.envelope_id, format!("arxiv-url-{}", envelope.post_sanitization_hash));
}

#[test]
fn test_ingest_args() {
    let result = sample_result();
    let envelope = build_envelope(&result);
    let args = EnvelopeBuilder::build_ingest_args(&envelope);
    assert_eq!(args.name, "Test Paper");
    assert_eq!(args.group_id, "astrolabe_main");
    assert!(args.source_description.contains("arxiv-url"));
    assert_eq!(args.source_description, "arxiv-url:https://arxiv.org/abs/2401.12345 (processor v1.0.0)");
}

#[test]
fn raw_artifact_defaults() {
    let a = artifact("arxiv_url", "Test paper", "https://arxiv.org/abs/2401.12345", "", vec![]);
    assert_eq!(a.source_type, "arxiv_url");
    assert!(a.attachments.is_empty());
}

#[test]
fn processor_result_validation() {
    let now = utc_now();
    let valid = ProcessorResult {
        title: "Test".to_string(),
        content: "Content".to_string(),
        source_url: "https://example.com".to_string(),
        source_type: "test".to_string(),
        processor_version: "1.0.0".to_string(),
        domain_tags: vec![],
        metadata: StrMap::new(),
        embedded_artifacts: vec![],
        fetched_at: now,
        processed_at: now,
    };
    assert!(valid.is_valid());
    let invalid = ProcessorResult { title: String::new(), ..valid };
    assert!(!invalid.is_valid());
}

fn pdf_artifact(arxiv_id: &str, pdf_data: &[u8]) -> RawArtifact {
    artifact(
        "arxiv_pdf",
        &format!("Paper {arxiv_id} \u{2014} new results"),
        "",
        "test-pdf-1",
        vec![Attachment {
            filename: format!("{arxiv_id}.pdf"),
            content_type: "application/pdf".to_string(),
            data: base64::engine::general_purpose::STANDARD.encode(pdf_data),
        }],
    )
}

#[test]
fn can_process_with_arxiv_id_and_pdf() {
    let processor = ArxivPdfProcessor::new();
    let a = pdf_artifact("2401.12345", b"%PDF-1.4 fake pdf content for testing");
    assert!(processor.can_process(&a));
}

#[test]
fn cannot_process_without_pdf() {
    let processor = ArxivPdfProcessor::new();
    let a = artifact("arxiv_pdf", "Paper 2401.12345", "", "test-2", vec![]);
    assert!(!processor.can_process(&a));
}

#[test]
fn cannot_process_without_arxiv_id() {
    let processor = ArxivPdfProcessor::new();
    let a = artifact(
        "arxiv_pdf",
        "Some random paper",
        "",
        "test-3",
        vec![Attachment {
            filename: "paper.pdf".to_string(),
            content_type: "application/pdf".to_string(),
            data: "not-real".to_string(),
        }],
    );
    assert!(!processor.can_process(&a));
}

#[test]
fn sync_process_extracts_basic_info() {
    let processor = ArxivPdfProcessor::new();
    let a = pdf_artifact("2401.12345", b"%PDF-1.4 fake pdf content for testing");
    let result = processor.process(&a, utc_now()).unwrap();
    assert_eq!(result.source_type, "arxiv-pdf");
    assert!(result.title.contains("2401.12345"));
    assert_eq!(text_meta(&result.metadata, "arxiv_id"), Some("2401.12345".to_string()));
    assert!(result.metadata.contains_key("content_hash_sha256"));
    assert!(result.is_valid());
}

#[test]
fn arxiv_pdf_with_metadata_uses_paper_facts() {
    let processor = ArxivPdfProcessor::new();
    let a = pdf_artifact("2401.12345", b"%PDF-1.4 x");
    let meta = ming_qiao::astrolabe::arxiv::ArxivMetadata {
        arxiv_id: "2401.12345".to_string(),
        title: "A Paper".to_string(),
        authors: vec!["Alice".to_string(), "Bob".to_string()],
        abstract_text: "We study things.".to_string(),
        categories: vec!["cs.LG".to_string(), "stat.ML".to_string(), "cs.AI".to_string()],
        published: "2024-01-15".to_string(),
    };
    let now = utc_now();
    let r = processor.process_with_metadata(&a, Some(meta), now, now).unwrap();
    assert_eq!(r.title, "A Paper");
    assert_eq!(r.domain_tags, vec!["research", "machine-learning", "artificial-intelligence"]);
    assert!(r.content.starts_with("Title: A Paper\nAuthors: Alice, Bob\n\nAbstract: We study things.\n\n[--- PDF Text ---]\n[PDF detected: 10 bytes"));
    assert_eq!(text_meta(&r.metadata, "published"), Some("2024-01-15".to_string()));
}

#[test]
fn decode_base64_attachment() {
    let original = b"Hello PDF world";
    let encoded = base64::engine::general_purpose::STANDARD.encode(original);
    let decoded = decode_attachment_data(&encoded);
    assert_eq!(decoded, original);
}

#[test]
fn decode_attachment_falls_back_to_raw_bytes() {
    assert_eq!(decode_attachment_data("not base64!"), b"not base64!".to_vec());
}

#[test]
fn extract_pdf_text_invalid() {
    let result = extract_pdf_text(b"not a pdf", 50);
    assert!(result.is_err());
}

#[test]
fn extract_pdf_text_valid_header() {
    let result = extract_pdf_text(b"%PDF-1.4 some content", 50);
    assert!(result.is_ok());
    assert!(result.unwrap().contains("PDF detected"));
}

#[test]
fn extract_pdf_text_exact() {
    assert_eq!(
        extract_pdf_text(b"%PDF-1.4 some content", 50).unwrap(),
        "[PDF detected: 21 bytes \u{2014} text extraction pending native PDF library integration]"
    );
    assert_eq!(extract_pdf_text(b"%PDF", 50).unwrap_err(), "not a valid PDF (missing header)");
}

#[test]
fn processor_metadata() {
    let processor = ArxivPdfProcessor::new();
    assert_eq!(processor.name(), "arxiv-pdf");
    assert_eq!(processor.version(), "1.0.0");
}

#[test]
fn test_extract_arxiv_id() {
    assert_eq!(extract_arxiv_id("https://arxiv.org/abs/2401.12345"), Some("2401.12345".to_string()));
    assert_eq!(extract_arxiv_id("Check out 2401.12345v2"), Some("2401.12345".to_string()));
    assert_eq!(extract_arxiv_id("no id here"), None);
}

#[test]
fn extract_arxiv_id_prefers_links() {
    assert_eq!(extract_arxiv_id("1111.2222 then ARXIV.org/abs/2401.123456"), Some("2401.12345".to_string()));
    assert_eq!(extract_arxiv_id("12345.67890"), Some("2345.67890".to_string()));
}

#[test]
fn test_format_authors() {
    let short = vec!["Alice".to_string(), "Bob".to_string()];
    assert_eq!(format_authors(&short), "Alice, Bob");
    let long: Vec<String> = (1..=8).map(|i| format!("Author{i}")).collect();
    let formatted = format_authors(&long);
    assert!(formatted.contains("et al."));
    assert!(formatted.contains("8 authors"));
    assert_eq!(formatted, "Author1, Author2, Author3, Author4, Author5 et al. (8 authors)");
    assert_eq!(format_authors(&[]), "");
}

#[test]
fn test_category_tag() {
    assert_eq!(category_tag("cs.AI"), Some("artificial-intelligence"));
    assert_eq!(category_tag("cs.LG"), Some("machine-learning"));
    assert_eq!(category_tag("unknown.XX"), None);
}

#[test]
fn test_parse_arxiv_response() {
    let xml = r#"<?xml version="1.0" encoding="UTF-8"?>
<feed xmlns="http://www.w3.org/2005/Atom">
  <entry>
    <title>Test Paper Title</title>
    <summary>This is the abstract of the test paper.</summary>
    <author><name>Alice</name></author>
    <author><name>Bob</name></author>
    <category term="cs.AI"/>
    <category term="cs.LG"/>
    <published>2024-01-15T00:00:00Z</published>
  </entry>
</feed>"#;
    let meta = parse_arxiv_response(xml, "2401.12345").unwrap();
    assert_eq!(meta.title, "Test Paper Title");
    assert_eq!(meta.authors, vec!["Alice", "Bob"]);
    assert!(meta.abstract_text.contains("abstract"));
    assert_eq!(meta.categories, vec!["cs.AI", "cs.LG"]);
}

#[test]
fn parse_arxiv_response_without_entry_fails() {
    let xml = r#"<feed><title>Error</title></feed>"#;
    assert!(parse_arxiv_response(xml, "2401.00000").is_err());
}

#[test]
fn test_processor_can_process() {
    let proc = ArxivUrlProcessor::new();
    let a = artifact("arxiv_url", "Paper", "https://arxiv.org/abs/2401.12345", "", vec![]);
    assert!(proc.can_process(&a));
    let no_arxiv = RawArtifact { body: "just some text".to_string(), ..a };
    assert!(!proc.can_process(&no_arxiv));
}

#[test]
fn arxiv_url_process_without_metadata() {
    let proc = ArxivUrlProcessor::new();
    let a = artifact("arxiv_url", "Paper", "https://arxiv.org/abs/2401.12345", "", vec![]);
    let r = proc.process_with_metadata(&a, None, utc_now()).unwrap();
    assert_eq!(r.title, "arXiv:2401.12345");
    assert_eq!(r.content, "arXiv paper 2401.12345 (metadata fetch failed)");
    assert_eq!(r.source_url, "https://arxiv.org/abs/2401.12345");
    assert_eq!(r.domain_tags, vec!["research"]);
}

#[test]
fn test_infer_title() {
    assert_eq!(infer_title("My Research Paper", ""), "My Research Paper");
    assert_eq!(infer_title("Fwd: paper", "my_paper.pdf"), "My Paper");
    assert_eq!(infer_title("", ""), "Untitled PDF");
}

#[test]
fn test_can_process() {
    let proc = PdfGenericProcessor::new();
    let a = artifact(
        "pdf_attachment",
        "Test",
        "",
        "msg-1",
        vec![Attachment {
            filename: "test.pdf".to_string(),
            content_type: "application/pdf".to_string(),
            data: base64::engine::general_purpose::STANDARD.encode(b"fake pdf"),
        }],
    );
    assert!(proc.can_process(&a));
}

#[test]
fn test_process() {
    let proc = PdfGenericProcessor::new();
    let a = artifact(
        "pdf_attachment",
        "Important Document",
        "",
        "msg-1",
        vec![Attachment {
            filename: "report.pdf".to_string(),
            content_type: "application/pdf".to_string(),
            data: base64::engine::general_purpose::STANDARD.encode(b"fake pdf content"),
        }],
    );
    let result = proc.process(&a, utc_now()).unwrap();
    assert_eq!(result.title, "Important Document");
    assert_eq!(result.source_type, "pdf-generic");
    assert!(result.domain_tags.contains(&"document".to_string()));
    assert!(result.metadata.contains_key("content_hash_sha256"));
    assert_eq!(result.source_url, "email:msg-1");
}

#[test]
fn pdf_generic_errors() {
    let proc = PdfGenericProcessor::new();
    let none = artifact("pdf_attachment", "x", "", "m", vec![]);
    assert!(proc.process(&none, utc_now()).is_err());
    let bad = artifact(
        "pdf_attachment",
        "x",
        "",
        "m",
        vec![Attachment { filename: "a.pdf".to_string(), content_type: "application/pdf".to_string(), data: "!!".to_string() }],
    );
    match proc.process(&bad, utc_now()) {
        Err(e) => assert!(e.message().starts_with("content extraction failed: base64 decode: ")),
        Ok(_) => panic!("expected an error"),
    }
    let empty = artifact(
        "pdf_attachment",
        "x",
        "",
        "m",
        vec![Attachment { filename: "a.pdf".to_string(), content_type: "application/pdf".to_string(), data: String::new() }],
    );
    match proc.process(&empty, utc_now()) {
        Err(e) => assert_eq!(e.message(), "missing required field: PDF data"),
        Ok(_) => panic!("expected an error"),
    }
}

#[test]
fn test_extract_url() {
    let a = artifact("web_url", "Blog post", "Check out https://example.com/article today", "", vec![]);
    assert_eq!(a.extract_url(), Some("https://example.com/article".to_string()));
}

#[test]
fn extract_url_skips_posts_and_trims_punctuation() {
    let a = artifact("web_url", "", "see https://x.com/a/status/1 and (https://blog.example.com/p).", "", vec![]);
    assert_eq!(a.extract_url(), Some("https://blog.example.com/p".to_string()));
}

#[test]
fn test_extract_url_from_metadata() {
    let mut a = artifact("web_url", "", "", "", vec![]);
    a.metadata.insert("source_url", MetaValue::Text("https://meta.example.com".to_string()));
    assert_eq!(a.extract_url(), Some("https://meta.example.com".to_string()));
}

#[test]
fn test_extract_content() {
    let html = "<html><head><title>My Article</title></head><body><p>Hello world</p></body></html>";
    let (title, text) = extract_content(html);
    assert_eq!(title, "My Article");
    assert!(text.contains("Hello world"));
    assert!(!text.contains("<p>"));
}

#[test]
fn extract_content_collapses_blank_lines() {
    let (title, text) = extract_content("<TITLE x=1> T </TITLE>a\n\n\n\nb<br>");
    assert_eq!(title, "T");
    assert_eq!(text, "T a\n\nb");
}

#[test]
fn test_domain_tags() {
    let tags = domain_tags("https://medium.com/some-article");
    assert!(tags.contains(&"blog".to_string()));
    assert!(tags.contains(&"tech-writing".to_string()));
    let tags = domain_tags("https://example.com/page");
    assert_eq!(tags, vec!["web-article".to_string()]);
}

#[test]
fn web_article_fallback_when_fetch_failed() {
    let p = ming_qiao::astrolabe::web::WebArticleProcessor::new();
    let a = artifact("web_url", "", "Read https://substack.com/p/x", "", vec![]);
    let r = p.process_with_page(&a, None, utc_now()).unwrap();
    assert_eq!(r.title, "Web article: https://substack.com/p/x");
    assert_eq!(r.domain_tags, vec!["web-article", "newsletter"]);
    assert_eq!(
        r.content,
        "URL: https://substack.com/p/x\n\n[Fetch failed \u{2014} content unavailable]\n\nRead https://substack.com/p/x"
    );
}

#[test]
fn test_parse_engagement() {
    let metrics = engagement_of("6K likes \u{b7} 319 replies \u{b7} 42 reposts");
    assert_eq!(engagement_value(&metrics, "likes"), Some(6000));
    assert_eq!(engagement_value(&metrics, "replies"), Some(319));
    assert_eq!(engagement_value(&metrics, "reposts"), Some(42));
}

#[test]
fn test_parse_engagement_decimal() {
    let metrics = engagement_of("1.2K likes");
    assert_eq!(engagement_value(&metrics, "likes"), Some(1200));
}

#[test]
fn engagement_terms_keys_and_scales() {
    let terms = engagement_terms("1,234 Retweets 2M bookmark");
    assert_eq!(terms.len(), 2);
    assert_eq!(terms[0].key, "reposts");
    assert_eq!(terms[0].number, "1234");
    assert_eq!(terms[0].multiplier, 1);
    assert_eq!(terms[1].key, "bookmarks");
    assert_eq!(terms[1].multiplier, 1000000);
}

#[test]
fn test_classify_url() {
    assert_eq!(classify_url("https://arxiv.org/abs/2401.12345"), "arxiv_url");
    assert_eq!(classify_url("https://github.com/user/repo"), "reference");
    assert_eq!(classify_url("https://medium.com/article"), "web_article");
    assert_eq!(classify_url("https://example.com/page"), "web_url");
    assert_eq!(classify_url("https://example.com/photo.png"), "media");
}

fn process_post(p: &XPostProcessor, a: &RawArtifact, now: Timestamp) -> ProcessorResult {
    let parts = p.parse(a).unwrap();
    let engagement = match &parts.engagement_text {
        Some(t) => engagement_of(t),
        None => Vec::new(),
    };
    p.assemble(parts, engagement, now)
}

#[test]
fn test_process_x_post() {
    let proc = XPostProcessor::new();
    let a = artifact(
        "x_post",
        "Andrej Karpathy (@karpathy) 6K likes \u{b7} 319 replies",
        "https://x.com/karpathy/status/2031135152349524125?s=20",
        "",
        vec![],
    );
    let result = process_post(&proc, &a, utc_now());
    assert_eq!(result.title, "Andrej Karpathy");
    assert_eq!(result.source_type, "x-post");
    assert!(result.content.contains("@karpathy"));
    match result.metadata.get("engagement") {
        Some(MetaValue::Counts(c)) => assert!(engagement_value(c, "likes").is_some()),
        _ => panic!("engagement missing"),
    }
    assert_eq!(result.source_url, "https://x.com/karpathy/status/2031135152349524125");
}

#[test]
fn test_process_with_embedded_links() {
    let proc = XPostProcessor::new();
    let a = artifact(
        "x_post",
        "User (@user) 100 likes",
        "https://x.com/user/status/123 https://arxiv.org/abs/2401.99999",
        "",
        vec![],
    );
    let result = process_post(&proc, &a, utc_now());
    assert!(result.title.contains("sharing paper"));
    assert_eq!(result.embedded_artifacts.len(), 1);
    assert_eq!(result.embedded_artifacts[0].type_hint, "arxiv_url");
    assert_eq!(result.embedded_artifacts[0].discovered_from, "https://x.com/user/status/123");
}

#[test]
fn x_post_without_link_is_missing_field() {
    let proc = XPostProcessor::new();
    let a = artifact("x_post", "hello", "no link", "", vec![]);
    match proc.parse(&a) {
        Err(e) => assert_eq!(e.message(), "missing required field: tweet URL"),
        Ok(_) => panic!("expected an error"),
    }
}

#[test]
fn registry_picks_first_processor() {
    let reg = ProcessorRegistry::new();
    let a = artifact("x_post", "x", "https://arxiv.org/abs/2401.12345 https://x.com/u/status/1", "", vec![]);
    assert_eq!(reg.find_processor(&a), Some(ProcessorKind::ArxivUrl));
    let b = artifact("x_post", "x", "https://x.com/u/status/1", "", vec![]);
    assert_eq!(reg.find_processor(&b), Some(ProcessorKind::XPost));
    let d = artifact("web_url", "x", "see https://example.com/post.", "", vec![]);
    assert_eq!(reg.find_processor(&d), Some(ProcessorKind::WebArticle));
    let c = artifact("other", "x", "nothing", "", vec![]);
    match reg.select(&c) {
        Err(e) => assert_eq!(e.message(), "unsupported source type: other"),
        Ok(_) => panic!("expected an error"),
    }
}

#[test]
fn extract_arxiv_id_reads_unicode_digits() {
    assert_eq!(
        extract_arxiv_id("see \u{662}\u{664}\u{660}\u{661}.\u{661}\u{662}\u{663}\u{664}\u{665} now"),
        Some("\u{662}\u{664}\u{660}\u{661}.\u{661}\u{662}\u{663}\u{664}\u{665}".to_string())
    );
    assert_eq!(extract_arxiv_id("2401.1234"), Some("2401.1234".to_string()));
    assert_eq!(extract_arxiv_id("240a.12345"), None);
}

#[test]
fn extract_arxiv_id_link_ignores_case_by_unicode_folding() {
    // The long s folds to `s` as the case-insensitive pattern reads it.
    assert_eq!(extract_arxiv_id("ARXIV.ORG/AB\u{17F}/2401.12345"), Some("2401.12345".to_string()));
}

#[test]
fn infer_title_follows_file_stem_rules() {
    assert_eq!(infer_title("Hello", ""), "Untitled PDF");
    assert_eq!(infer_title("Hello!", ""), "Hello!");
    assert_eq!(infer_title("", "a_b.pdf"), "Untitled PDF");
    assert_eq!(infer_title("Fwd: long subject", "q3-report.pdf"), "Q3 Report");
    assert_eq!(infer_title("", "notes"), "Notes");
    assert_eq!(infer_title("", "archive.tar.gz"), "Archive.tar");
    assert_eq!(infer_title("", ".hidden"), ".hidden");
    assert_eq!(infer_title("", ".."), "Untitled PDF");
}

#[test]
fn extract_arxiv_id_ignores_non_decimal_numerals() {
    assert_eq!(extract_arxiv_id("\u{2460}\u{2460}\u{2460}\u{2460}.\u{2460}\u{2460}\u{2460}\u{2460}"), None);
    assert_eq!(extract_arxiv_id("\u{b2}401.12345"), None);
}

#[test]
fn normalize_url_follows_its_rules_in_any_order_of_case_and_query() {
    assert_eq!(normalize_url("https://a.com/?x=1"), "https://a.com");
    assert_eq!(normalize_url("https://TWITTER.COM/u"), "https://x.com/u");
    assert_eq!(normalize_url("  https://ARXIV.org/abs/2401.12345?v=2 "), "https://arxiv.org/abs/2401.12345?v=2");
    assert_eq!(normalize_url("https://example.com/page//"), "https://example.com/page");
}
