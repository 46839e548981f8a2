//! The processors known to the toolkit, tried in a fixed order.

use vstd::prelude::*;
use crate::astrolabe::arxiv::{bare_id_spec, extract_arxiv_id_spec, ArxivUrlProcessor};
use crate::astrolabe::pdf::{ArxivPdfProcessor, PdfGenericProcessor};
use crate::astrolabe::processor::{first_pdf_index, ProcessorError, RawArtifact};
use crate::astrolabe::web::{extract_url_spec, WebArticleProcessor};
use crate::astrolabe::xpost::{tweet_match, XPostProcessor};

verus! {

/// A built-in processor.
#[derive(Debug, Clone, Copy, PartialEq, Eq, Structural)]
pub enum ProcessorKind {
    ArxivUrl,
    ArxivPdf,
    PdfGeneric,
    WebArticle,
    XPost,
}

/// Whether the processor `k` can handle the artifact `a`.
pub open spec fn accepts_spec(k: ProcessorKind, a: RawArtifact) -> bool {
    match k {
        ProcessorKind::ArxivUrl => extract_arxiv_id_spec(a.subject@ + seq![' '] + a.body@) is Some,
        ProcessorKind::ArxivPdf => bare_id_spec(a.subject@) is Some && first_pdf_index(a.attachments@) is Some,
        ProcessorKind::PdfGeneric => first_pdf_index(a.attachments@) is Some,
        ProcessorKind::WebArticle => extract_url_spec(a.metadata@, a.body@) is Some,
        ProcessorKind::XPost => tweet_match(a.subject@ + seq![' '] + a.body@) is Some,
    }
}

/// The first processor, in order, that can handle `a`.
pub open spec fn find_processor_spec(a: RawArtifact) -> Option<ProcessorKind> {
    if accepts_spec(ProcessorKind::ArxivUrl, a) {
        Some(ProcessorKind::ArxivUrl)
    } else if accepts_spec(ProcessorKind::ArxivPdf, a) {
        Some(ProcessorKind::ArxivPdf)
    } else if accepts_spec(ProcessorKind::PdfGeneric, a) {
        Some(ProcessorKind::PdfGeneric)
    } else if accepts_spec(ProcessorKind::WebArticle, a) {
        Some(ProcessorKind::WebArticle)
    } else if accepts_spec(ProcessorKind::XPost, a) {
        Some(ProcessorKind::XPost)
    } else {
        None
    }
}

/// The registry of the built-in processors.
pub struct ProcessorRegistry {
    pub arxiv_url: ArxivUrlProcessor,
    pub arxiv_pdf: ArxivPdfProcessor,
    pub pdf_generic: PdfGenericProcessor,
    pub web_article: WebArticleProcessor,
    pub x_post: XPostProcessor,
}

impl ProcessorRegistry {
    /// A registry with all built-in processors.
    pub fn new() -> (r: Self) {
        ProcessorRegistry {
            arxiv_url: ArxivUrlProcessor::new(),
            arxiv_pdf: ArxivPdfProcessor::new(),
            pdf_generic: PdfGenericProcessor::new(),
            web_article: WebArticleProcessor::new(),
            x_post: XPostProcessor::new(),
        }
    }

    /// Whether the processor `k` can handle the artifact.
    pub fn accepts(&self, k: ProcessorKind, artifact: &RawArtifact) -> (b: bool)
        requires
            artifact.metadata.wf(),
        ensures
            b == accepts_spec(k, *artifact),
    {
        match k {
            ProcessorKind::ArxivUrl => self.arxiv_url.can_process(artifact),
            ProcessorKind::ArxivPdf => self.arxiv_pdf.can_process(artifact),
            ProcessorKind::PdfGeneric => self.pdf_generic.can_process(artifact),
            ProcessorKind::WebArticle => self.web_article.can_process(artifact),
            ProcessorKind::XPost => self.x_post.can_process(artifact),
        }
    }

    /// The first processor, in order, that can handle the artifact.
    pub fn find_processor(&self, artifact: &RawArtifact) -> (r: Option<ProcessorKind>)
        requires
            artifact.metadata.wf(),
        ensures
            r == find_processor_spec(*artifact),
    {
        if self.accepts(ProcessorKind::ArxivUrl, artifact) {
            Some(ProcessorKind::ArxivUrl)
        } else if self.accepts(ProcessorKind::ArxivPdf, artifact) {
            Some(ProcessorKind::ArxivPdf)
        } else if self.accepts(ProcessorKind::PdfGeneric, artifact) {
            Some(ProcessorKind::PdfGeneric)
        } else if self.accepts(ProcessorKind::WebArticle, artifact) {
            Some(ProcessorKind::WebArticle)
        } else if self.accepts(ProcessorKind::XPost, artifact) {
            Some(ProcessorKind::XPost)
        } else {
            None
        }
    }

    /// The processor for the artifact, or `UnsupportedType(<source type>)`
    /// when none can handle it.
    pub fn select(&self, artifact: &RawArtifact) -> (r: Result<ProcessorKind, ProcessorError>)
        requires
            artifact.metadata.wf(),
        ensures
            match find_processor_spec(*artifact) {
                Some(k) => r == Ok::<ProcessorKind, ProcessorError>(k),
                None => r matches Err(ProcessorError::UnsupportedType(t)) && t@ == artifact.source_type@,
            },
    {
        match self.find_processor(artifact) {
            Some(k) => Ok(k),
            None => Err(ProcessorError::UnsupportedType(artifact.source_type.clone())),
        }
    }
}

} // verus!
