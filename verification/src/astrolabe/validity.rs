//! What every processor result passes: the validation of its required
//! fields (title, content, source URL).

use vstd::prelude::*;
use crate::astrolabe::arxiv::{arxiv_url_result, ArxivMetadata};
use crate::astrolabe::pdf::{arxiv_pdf_full_result, arxiv_pdf_sync_result, paper_facts};
use crate::astrolabe::processor::{ProcessorResult, RawArtifact};
use crate::astrolabe::web::{article_result, fallback_title, html_title_spec};
use crate::astrolabe::xpost::{display_spec, topic_hint_spec, x_post_lines, counts_view, XPostParts};
use crate::events::schema::Timestamp;
use crate::text::{join_spec, lemma_join_len};

verus! {

/// A post result is valid.
pub proof fn lemma_x_post_result_valid(p: XPostParts, engagement: Vec<(String, i64)>, r: ProcessorResult)
    requires
        r.title@ == display_spec(p) + topic_hint_spec(p),
        r.content@ == join_spec(x_post_lines(p, counts_view(engagement@)), "\n"@),
        r.source_url@ == p.tweet_url@,
        p.tweet_url@.len() > 0,
    ensures
        r.valid(),
{
    reveal_strlit("@");
    reveal_strlit("X post by ");
    lemma_join_len(x_post_lines(p, counts_view(engagement@)), "\n"@);
}

/// An arXiv PDF result made without API metadata is valid.
pub proof fn lemma_arxiv_pdf_sync_valid(id: Seq<char>, bytes: Seq<u8>, now: Timestamp, r: ProcessorResult)
    requires
        arxiv_pdf_sync_result(id, bytes, now, r),
    ensures
        r.valid(),
{
    reveal_strlit("arXiv:");
    reveal_strlit("Title: ");
    reveal_strlit("https://arxiv.org/abs/");
    lemma_join_len(seq!["Title: "@ + ("arXiv:"@ + id)] + crate::astrolabe::pdf::pdf_text_lines(bytes), "\n"@);
}

/// An arXiv PDF result made with API metadata is valid when the paper's
/// title is not empty (as the feed reading guarantees).
pub proof fn lemma_arxiv_pdf_full_valid(
    id: Seq<char>,
    bytes: Seq<u8>,
    meta: Option<ArxivMetadata>,
    now: Timestamp,
    processed_at: Timestamp,
    r: ProcessorResult,
)
    requires
        arxiv_pdf_full_result(id, bytes, meta, now, processed_at, r),
        meta matches Some(m) ==> m.title@.len() > 0,
    ensures
        r.valid(),
{
    reveal_strlit("arXiv:");
    reveal_strlit("Title: ");
    reveal_strlit("https://arxiv.org/abs/");
    let (title, authors, abs, cats, published) = paper_facts(id, meta);
    lemma_join_len(
        seq!["Title: "@ + title] + (if authors.len() > 0 { seq!["Authors: "@ + authors] } else { Seq::empty() }) + (
        if abs.len() > 0 { seq!["\nAbstract: "@ + abs] } else { Seq::empty() }) + crate::astrolabe::pdf::pdf_text_lines(bytes),
        "\n"@,
    );
}

/// An arXiv URL result is valid when the paper's title is not empty.
pub proof fn lemma_arxiv_url_valid(id: Seq<char>, meta: Option<ArxivMetadata>, now: Timestamp, r: ProcessorResult)
    requires
        arxiv_url_result(id, meta, now, r),
        meta matches Some(m) ==> m.title@.len() > 0,
    ensures
        r.valid(),
{
    reveal_strlit("arXiv:");
    reveal_strlit("Title: ");
    reveal_strlit("arXiv paper ");
    reveal_strlit("https://arxiv.org/abs/");
}

/// A web article result is valid when its URL is not empty.
pub proof fn lemma_article_valid(a: RawArtifact, url: Seq<char>, page: Option<String>, now: Timestamp, r: ProcessorResult)
    requires
        article_result(a, url, page, now, r),
        url.len() > 0,
    ensures
        r.valid(),
{
    reveal_strlit("Web article: ");
    reveal_strlit("Title: ");
    reveal_strlit("URL: ");
    match page {
        Some(html) => {
            let ht = html_title_spec(html@);
            let title = if ht.len() > 0 { ht } else { fallback_title(a.subject@, url) };
            let text = crate::astrolabe::web::page_text_spec(html@);
            lemma_join_len(crate::astrolabe::web::article_lines(title, url, text), "\n"@);
        },
        None => {},
    }
}

} // verus!
