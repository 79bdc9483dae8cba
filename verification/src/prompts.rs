//! The template-driven prompt strategy: per kind and format, a built-in
//! instruction with a preamble marker that the resolved preamble replaces.

use vstd::prelude::*;
use crate::model::{Kind, OutputFormat, PromptStrategy};
use crate::templates::{
    spec_default_preamble, spec_load_or, spec_preamble_file, spec_prompt_file, TemplateLoader,
};
use crate::text::{replace_all, spec_replace};

verus! {

/// The marker the preamble lands on inside a prompt template.
pub const PREAMBLE_MARKER: &'static str = "{{PREAMBLE}}";

/// A prompt strategy bound to one content kind, drawing its text from the
/// template loader.
#[derive(Debug)]
pub struct TemplatePromptStrategy {
    loader: TemplateLoader,
    kind: Kind,
}

/// The built-in instruction of each kind and format, before the preamble
/// marker is filled in.
pub open spec fn spec_default_prompt(kind: Kind, format: OutputFormat) -> Seq<char> {
    match (kind, format) {
        (Kind::Slides, OutputFormat::Markdown) => SLIDES_PROMPT_MARKDOWN@,
        (Kind::Lecture, OutputFormat::Markdown) => LECTURE_PROMPT_MARKDOWN@,
        (Kind::Document, OutputFormat::Markdown) => DOCUMENT_PROMPT_MARKDOWN@,
        (Kind::Image, OutputFormat::Markdown) => IMAGE_PROMPT_MARKDOWN@,
        (Kind::Video, OutputFormat::Markdown) => VIDEO_PROMPT_MARKDOWN@,
        (Kind::Slides, OutputFormat::Latex) => SLIDES_PROMPT_LATEX@,
        (Kind::Lecture, OutputFormat::Latex) => LECTURE_PROMPT_LATEX@,
        (Kind::Document, OutputFormat::Latex) => DOCUMENT_PROMPT_LATEX@,
        (Kind::Image, OutputFormat::Latex) => IMAGE_PROMPT_LATEX@,
        (Kind::Video, OutputFormat::Latex) => VIDEO_PROMPT_LATEX@,
    }
}

impl TemplatePromptStrategy {
    pub closed spec fn spec_kind(&self) -> Kind {
        self.kind
    }

    pub closed spec fn spec_loader(&self) -> &TemplateLoader {
        &self.loader
    }

    /// A strategy for one kind over the given templates.
    pub fn new(loader: TemplateLoader, kind: Kind) -> (s: TemplatePromptStrategy)
        ensures
            s.spec_kind() == kind,
            s.spec_loader().spec_entries() == loader.spec_entries(),
    {
        TemplatePromptStrategy { loader, kind }
    }

    /// The built-in instruction of this strategy's kind.
    pub fn default_prompt(&self, format: OutputFormat) -> (r: &'static str)
        ensures
            r@ == spec_default_prompt(self.spec_kind(), format),
    {
        match (self.kind, format) {
            (Kind::Slides, OutputFormat::Markdown) => SLIDES_PROMPT_MARKDOWN,
            (Kind::Lecture, OutputFormat::Markdown) => LECTURE_PROMPT_MARKDOWN,
            (Kind::Document, OutputFormat::Markdown) => DOCUMENT_PROMPT_MARKDOWN,
            (Kind::Image, OutputFormat::Markdown) => IMAGE_PROMPT_MARKDOWN,
            (Kind::Video, OutputFormat::Markdown) => VIDEO_PROMPT_MARKDOWN,
            (Kind::Slides, OutputFormat::Latex) => SLIDES_PROMPT_LATEX,
            (Kind::Lecture, OutputFormat::Latex) => LECTURE_PROMPT_LATEX,
            (Kind::Document, OutputFormat::Latex) => DOCUMENT_PROMPT_LATEX,
            (Kind::Image, OutputFormat::Latex) => IMAGE_PROMPT_LATEX,
            (Kind::Video, OutputFormat::Latex) => VIDEO_PROMPT_LATEX,
        }
    }
}

impl PromptStrategy for TemplatePromptStrategy {
    /// The preamble of this kind in the given format, template-overridable.
    fn preamble(&self, format: OutputFormat) -> (r: String)
        ensures
            r@ == spec_load_or(
                self.spec_loader().spec_entries(),
                spec_preamble_file(self.spec_kind(), format),
                spec_default_preamble(self.spec_kind(), format),
            ),
    {
        self.loader.preamble(self.kind, format)
    }

    /// The instruction sent with the media: the prompt template (or its
    /// built-in default) with every preamble marker replaced by the given
    /// preamble.
    fn instruction(&self, format: OutputFormat, preamble: &str) -> (r: String)
        ensures
            r@ == spec_replace(
                spec_load_or(
                    self.spec_loader().spec_entries(),
                    spec_prompt_file(self.spec_kind(), format),
                    spec_default_prompt(self.spec_kind(), format),
                ),
                PREAMBLE_MARKER@,
                preamble@,
            ),
    {
        let default = self.default_prompt(format);
        let template = self.loader.prompt(self.kind, format, default);
        replace_all(template.as_str(), PREAMBLE_MARKER, preamble)
    }
}

/// One strategy per kind, all over the same templates.
pub fn build_prompt_strategies(loader: &TemplateLoader) -> (r: Vec<(Kind, TemplatePromptStrategy)>)
    ensures
        r@.len() == 5,
        forall|i: int|
            0 <= i < r@.len() ==> (#[trigger] r@[i]).1.spec_kind() == r@[i].0
                && r@[i].1.spec_loader().spec_entries() == loader.spec_entries(),
        r@[0].0 == Kind::Slides,
        r@[1].0 == Kind::Lecture,
        r@[2].0 == Kind::Document,
        r@[3].0 == Kind::Image,
        r@[4].0 == Kind::Video,
{
    let mut out: Vec<(Kind, TemplatePromptStrategy)> = Vec::new();
    out.push((Kind::Slides, TemplatePromptStrategy::new(loader.clone_loader(), Kind::Slides)));
    out.push((Kind::Lecture, TemplatePromptStrategy::new(loader.clone_loader(), Kind::Lecture)));
    out.push(
        (Kind::Document, TemplatePromptStrategy::new(loader.clone_loader(), Kind::Document)),
    );
    out.push((Kind::Image, TemplatePromptStrategy::new(loader.clone_loader(), Kind::Image)));
    out.push((Kind::Video, TemplatePromptStrategy::new(loader.clone_loader(), Kind::Video)));
    out
}

pub const SLIDES_PROMPT_MARKDOWN: &'static str = "{{PREAMBLE}}\nSummarize slide content using GitHub-flavored Markdown. Preserve slide order and hierarchy. Render equations with inline ($...$) or block ($$...$$) math fences.";

pub const LECTURE_PROMPT_MARKDOWN: &'static str = "{{PREAMBLE}}\nProduce a lecture summary with [MM:SS] timestamps. Capture key arguments, definitions, and examples using GitHub-flavored Markdown. Render mathematics with $...$ or $$...$$.";

pub const DOCUMENT_PROMPT_MARKDOWN: &'static str = "{{PREAMBLE}}\nSummarize the document in GitHub-flavored Markdown. Preserve headings and highlight key conclusions. Render equations with Markdown math fences.";

pub const IMAGE_PROMPT_MARKDOWN: &'static str = "{{PREAMBLE}}\nDescribe the image with technical precision in GitHub-flavored Markdown. Capture any embedded text (render math using $...$/$$...$$) and note significant visual details.";

pub const VIDEO_PROMPT_MARKDOWN: &'static str = "{{PREAMBLE}}\nTask: Produce a transcript with [MM:SS] timestamps and a timeline of salient visual events.\nInclude: visual descriptions, slide titles, equations rendered with Markdown math fences, and noteworthy gestures or annotations.\nOutput: GitHub-flavored Markdown with headings 'Transcript', 'Timeline', and 'Key Terms'.";

pub const SLIDES_PROMPT_LATEX: &'static str = "{{PREAMBLE}}\nSummarize slide content. Preserve slide order and hierarchy. Output LaTeX with appropriate sectioning. Render mathematics as LaTeX environments or inline math.";

pub const LECTURE_PROMPT_LATEX: &'static str = "{{PREAMBLE}}\nProduce a lecture summary with [MM:SS] timestamps. Capture key arguments, definitions, and examples. Render mathematics as LaTeX (use align/gather/equation when helpful).";

pub const DOCUMENT_PROMPT_LATEX: &'static str = "{{PREAMBLE}}\nSummarize the document. Preserve headings and highlight key conclusions. Render all mathematics as LaTeX.";

pub const IMAGE_PROMPT_LATEX: &'static str = "{{PREAMBLE}}\nDescribe the image with technical precision. Capture any embedded text (convert math to LaTeX) and notable visual details. Output LaTeX.";

pub const VIDEO_PROMPT_LATEX: &'static str = "{{PREAMBLE}}\nTask: Produce a transcript with [MM:SS] timestamps and a timeline of salient visual events.\nInclude: visual descriptions, slide titles, equations in LaTeX, and noteworthy gestures or annotations.\nOutput: LaTeX with sections for 'Transcript', 'Timeline', and 'Key Terms'.";

} // verus!
