//! Prompt templates: the built-in defaults for every kind and format, and
//! the loader that prefers template files the shell read from the user's
//! template directory.

use vstd::prelude::*;
use vstd::string::StringExecFns;
use crate::model::{Kind, OutputFormat};
use crate::text::str_eq;

verus! {

/// A template the shell found on disk: its file name and its contents.
#[derive(Debug, Clone)]
pub struct TemplateEntry {
    pub name: String,
    pub contents: String,
}

/// The template loader: the entries read from the template directory once,
/// consulted by name with a built-in default as the fallback.
#[derive(Debug)]
pub struct TemplateLoader {
    entries: Vec<TemplateEntry>,
}

/// The contents stored under a file name, first match wins.
pub open spec fn spec_entry_of(entries: Seq<TemplateEntry>, name: Seq<char>) -> Option<Seq<char>>
    decreases entries.len(),
{
    if entries.len() == 0 {
        None
    } else if entries[0].name@ == name {
        Some(entries[0].contents@)
    } else {
        spec_entry_of(entries.subrange(1, entries.len() as int), name)
    }
}

/// The template file consulted for each kind and format's preamble.
pub open spec fn spec_preamble_file(kind: Kind, format: OutputFormat) -> Seq<char> {
    match (kind, format) {
        (Kind::Slides, OutputFormat::Markdown) => "slide-template.txt"@,
        (Kind::Slides, OutputFormat::Latex) => "slide-latex-template.txt"@,
        (Kind::Lecture, OutputFormat::Markdown) => "lecture-template.txt"@,
        (Kind::Lecture, OutputFormat::Latex) => "lecture-latex-template.txt"@,
        (Kind::Document, OutputFormat::Markdown) => "document-template.txt"@,
        (Kind::Document, OutputFormat::Latex) => "document-latex-template.txt"@,
        (Kind::Image, OutputFormat::Markdown) => "image-template.txt"@,
        (Kind::Image, OutputFormat::Latex) => "image-latex-template.txt"@,
        (Kind::Video, OutputFormat::Markdown) => "video-template.txt"@,
        (Kind::Video, OutputFormat::Latex) => "video-latex-template.txt"@,
    }
}

/// The template file consulted for each kind and format's prompt.
pub open spec fn spec_prompt_file(kind: Kind, format: OutputFormat) -> Seq<char> {
    match (kind, format) {
        (Kind::Slides, OutputFormat::Markdown) => "slide-prompt.txt"@,
        (Kind::Slides, OutputFormat::Latex) => "slide-prompt-latex.txt"@,
        (Kind::Lecture, OutputFormat::Markdown) => "lecture-prompt.txt"@,
        (Kind::Lecture, OutputFormat::Latex) => "lecture-prompt-latex.txt"@,
        (Kind::Document, OutputFormat::Markdown) => "document-prompt.txt"@,
        (Kind::Document, OutputFormat::Latex) => "document-prompt-latex.txt"@,
        (Kind::Image, OutputFormat::Markdown) => "image-prompt.txt"@,
        (Kind::Image, OutputFormat::Latex) => "image-prompt-latex.txt"@,
        (Kind::Video, OutputFormat::Markdown) => "video-prompt.txt"@,
        (Kind::Video, OutputFormat::Latex) => "video-prompt-latex.txt"@,
    }
}

/// What `load_or_default` returns: the stored entry, or the default.
pub open spec fn spec_load_or(
    entries: Seq<TemplateEntry>,
    name: Seq<char>,
    default: Seq<char>,
) -> Seq<char> {
    match spec_entry_of(entries, name) {
        Some(text) => text,
        None => default,
    }
}

impl TemplateLoader {
    pub closed spec fn spec_entries(&self) -> Seq<TemplateEntry> {
        self.entries@
    }

    /// A loader over the template files the shell found.
    pub fn new(entries: Vec<TemplateEntry>) -> (l: TemplateLoader)
        ensures
            l.spec_entries() == entries@,
    {
        TemplateLoader { entries }
    }

    /// A second handle over the same templates.
    pub fn clone_loader(&self) -> (l: TemplateLoader)
        ensures
            l.spec_entries() == self.spec_entries(),
    {
        let n = self.entries.len();
        let mut entries: Vec<TemplateEntry> = Vec::new();
        let mut i: usize = 0;
        while i < n
            invariant
                0 <= i <= n,
                n == self.entries@.len(),
                entries@.len() == i,
                forall|j: int| 0 <= j < i ==> #[trigger] entries@[j] == self.entries@[j],
            decreases n - i,
        {
            let entry = TemplateEntry {
                name: self.entries[i].name.clone(),
                contents: self.entries[i].contents.clone(),
            };
            entries.push(entry);
            i += 1;
        }
        proof {
            assert(entries@ =~= self.entries@);
        }
        TemplateLoader { entries }
    }

    /// The named template, or the given default where none was found.
    pub fn load_or_default(&self, filename: &str, default: &str) -> (r: String)
        ensures
            r@ == spec_load_or(self.spec_entries(), filename@, default@),
    {
        let n = self.entries.len();
        proof {
            assert(self.entries@.subrange(0, n as int) =~= self.entries@);
        }
        let mut i: usize = 0;
        while i < n
            invariant
                0 <= i <= n,
                n == self.entries@.len(),
                spec_entry_of(self.entries@, filename@) == spec_entry_of(
                    self.entries@.subrange(i as int, n as int),
                    filename@,
                ),
            decreases n - i,
        {
            let ghost pending = self.entries@.subrange(i as int, n as int);
            proof {
                assert(pending[0] == self.entries@[i as int]);
                assert(pending.subrange(1, pending.len() as int) =~= self.entries@.subrange(
                    i as int + 1,
                    n as int,
                ));
            }
            if str_eq(self.entries[i].name.as_str(), filename) {
                return self.entries[i].contents.clone();
            }
            i += 1;
        }
        proof {
            assert(self.entries@.subrange(n as int, n as int) =~= Seq::<TemplateEntry>::empty());
        }
        String::from_str(default)
    }

    /// The preamble for a kind and format: the template file if present,
    /// else the built-in default (empty for Markdown, a document preamble
    /// for LaTeX).
    pub fn preamble(&self, kind: Kind, format: OutputFormat) -> (r: String)
        ensures
            r@ == spec_load_or(
                self.spec_entries(),
                spec_preamble_file(kind, format),
                spec_default_preamble(kind, format),
            ),
    {
        let (filename, default) = preamble_default(kind, format);
        self.load_or_default(filename, default)
    }

    /// The prompt template for a kind and format, with the caller's default.
    pub fn prompt(&self, kind: Kind, format: OutputFormat, default: &str) -> (r: String)
        ensures
            r@ == spec_load_or(self.spec_entries(), spec_prompt_file(kind, format), default@),
    {
        let filename = prompt_file(kind, format);
        self.load_or_default(filename, default)
    }

    /// The conversion prompt from LaTeX to Markdown.
    pub fn latex_to_md_prompt(&self) -> (r: String)
        ensures
            r@ == spec_load_or(
                self.spec_entries(),
                "latex-to-md-template.txt"@,
                spec_latex_to_md_default(),
            ),
    {
        self.load_or_default("latex-to-md-template.txt", LATEX_TO_MD_PROMPT)
    }

    /// The conversion prompt from LaTeX to JSON.
    pub fn latex_to_json_prompt(&self) -> (r: String)
        ensures
            r@ == spec_load_or(
                self.spec_entries(),
                "latex-to-json-template.txt"@,
                spec_latex_to_json_default(),
            ),
    {
        self.load_or_default("latex-to-json-template.txt", LATEX_TO_JSON_PROMPT)
    }

    /// The conversion prompt from Markdown to JSON.
    pub fn markdown_to_json_prompt(&self) -> (r: String)
        ensures
            r@ == spec_load_or(
                self.spec_entries(),
                "markdown-to-json-template.txt"@,
                spec_markdown_to_json_default(),
            ),
    {
        self.load_or_default("markdown-to-json-template.txt", MARKDOWN_TO_JSON_PROMPT)
    }
}

/// The built-in preamble of each kind and format: Markdown output starts
/// bare; LaTeX output opens a suitable document.
pub open spec fn spec_default_preamble(kind: Kind, format: OutputFormat) -> Seq<char> {
    match format {
        OutputFormat::Markdown => ""@,
        OutputFormat::Latex => spec_latex_preamble(kind),
    }
}

pub open spec fn spec_latex_preamble(kind: Kind) -> Seq<char> {
    match kind {
        Kind::Slides => SLIDES_PREAMBLE_LATEX@,
        Kind::Lecture => LECTURE_PREAMBLE_LATEX@,
        Kind::Document => DOCUMENT_PREAMBLE_LATEX@,
        Kind::Image => IMAGE_PREAMBLE_LATEX@,
        Kind::Video => VIDEO_PREAMBLE_LATEX@,
    }
}

pub open spec fn spec_latex_to_md_default() -> Seq<char> {
    LATEX_TO_MD_PROMPT@
}

pub open spec fn spec_latex_to_json_default() -> Seq<char> {
    LATEX_TO_JSON_PROMPT@
}

pub open spec fn spec_markdown_to_json_default() -> Seq<char> {
    MARKDOWN_TO_JSON_PROMPT@
}

/// The template file and built-in default behind each preamble.
fn preamble_default(kind: Kind, format: OutputFormat) -> (r: (&'static str, &'static str))
    ensures
        r.0@ == spec_preamble_file(kind, format),
        r.1@ == spec_default_preamble(kind, format),
{
    proof {
        reveal_strlit("slide-template.txt");
        reveal_strlit("slide-latex-template.txt");
        reveal_strlit("lecture-template.txt");
        reveal_strlit("lecture-latex-template.txt");
        reveal_strlit("document-template.txt");
        reveal_strlit("document-latex-template.txt");
        reveal_strlit("image-template.txt");
        reveal_strlit("image-latex-template.txt");
        reveal_strlit("video-template.txt");
        reveal_strlit("video-latex-template.txt");
        reveal_strlit("");
    }
    match (kind, format) {
        (Kind::Slides, OutputFormat::Markdown) => ("slide-template.txt", ""),
        (Kind::Slides, OutputFormat::Latex) => ("slide-latex-template.txt", SLIDES_PREAMBLE_LATEX),
        (Kind::Lecture, OutputFormat::Markdown) => ("lecture-template.txt", ""),
        (Kind::Lecture, OutputFormat::Latex) => (
            "lecture-latex-template.txt",
            LECTURE_PREAMBLE_LATEX,
        ),
        (Kind::Document, OutputFormat::Markdown) => ("document-template.txt", ""),
        (Kind::Document, OutputFormat::Latex) => (
            "document-latex-template.txt",
            DOCUMENT_PREAMBLE_LATEX,
        ),
        (Kind::Image, OutputFormat::Markdown) => ("image-template.txt", ""),
        (Kind::Image, OutputFormat::Latex) => ("image-latex-template.txt", IMAGE_PREAMBLE_LATEX),
        (Kind::Video, OutputFormat::Markdown) => ("video-template.txt", ""),
        (Kind::Video, OutputFormat::Latex) => ("video-latex-template.txt", VIDEO_PREAMBLE_LATEX),
    }
}

/// The template file behind each prompt.
fn prompt_file(kind: Kind, format: OutputFormat) -> (r: &'static str)
    ensures
        r@ == spec_prompt_file(kind, format),
{
    proof {
        reveal_strlit("slide-prompt.txt");
        reveal_strlit("slide-prompt-latex.txt");
        reveal_strlit("lecture-prompt.txt");
        reveal_strlit("lecture-prompt-latex.txt");
        reveal_strlit("document-prompt.txt");
        reveal_strlit("document-prompt-latex.txt");
        reveal_strlit("image-prompt.txt");
        reveal_strlit("image-prompt-latex.txt");
        reveal_strlit("video-prompt.txt");
        reveal_strlit("video-prompt-latex.txt");
    }
    match (kind, format) {
        (Kind::Slides, OutputFormat::Markdown) => "slide-prompt.txt",
        (Kind::Slides, OutputFormat::Latex) => "slide-prompt-latex.txt",
        (Kind::Lecture, OutputFormat::Markdown) => "lecture-prompt.txt",
        (Kind::Lecture, OutputFormat::Latex) => "lecture-prompt-latex.txt",
        (Kind::Document, OutputFormat::Markdown) => "document-prompt.txt",
        (Kind::Document, OutputFormat::Latex) => "document-prompt-latex.txt",
        (Kind::Image, OutputFormat::Markdown) => "image-prompt.txt",
        (Kind::Image, OutputFormat::Latex) => "image-prompt-latex.txt",
        (Kind::Video, OutputFormat::Markdown) => "video-prompt.txt",
        (Kind::Video, OutputFormat::Latex) => "video-prompt-latex.txt",
    }
}

pub const SLIDES_PREAMBLE_LATEX: &'static str = "\\documentclass[aspectratio=43]{beamer}\n\n\\usepackage{amsmath}\n\\usepackage{amssymb}\n\\usepackage{amsfonts}\n\\usepackage{tikz}\n\\usepackage{xcolor}\n\\usepackage{graphicx}\n\\usepackage{hyperref}\n\n\\usetheme{Madrid}\n\\setbeamertemplate{navigation symbols}{}\n\n\\title{}\n\\author{}\n\\date{}\n\n\\begin{document}\n";

pub const LECTURE_PREAMBLE_LATEX: &'static str = "\\documentclass{article}\n\n\\usepackage{amsmath}\n\\usepackage{amssymb}\n\\usepackage{amsfonts}\n\\usepackage{amsthm}\n\\usepackage{physics}\n\\usepackage{bm}\n\\usepackage{geometry}\n\\geometry{margin=1in}\n\n\\title{}\n\\author{}\n\\date{}\n\n\\begin{document}\n";

pub const DOCUMENT_PREAMBLE_LATEX: &'static str = "\\documentclass{article}\n\n\\usepackage{amsmath}\n\\usepackage{amssymb}\n\\usepackage{amsfonts}\n\\usepackage{amsthm}\n\\usepackage{graphicx}\n\\usepackage{tabularx}\n\\usepackage{booktabs}\n\\usepackage{xcolor}\n\\usepackage{enumitem}\n\n\\title{}\n\\author{}\n\\date{}\n\n\\begin{document}\n";

pub const IMAGE_PREAMBLE_LATEX: &'static str = "\\documentclass{article}\n\n\\usepackage{amsmath}\n\\usepackage{amssymb}\n\\usepackage{amsfonts}\n\\usepackage{amsthm}\n\\usepackage{geometry}\n\\geometry{margin=1in}\n\n\\begin{document}\n";

pub const VIDEO_PREAMBLE_LATEX: &'static str = "\\documentclass{article}\n\n\\usepackage{amsmath}\n\\usepackage{amssymb}\n\\usepackage{amsfonts}\n\\usepackage{amsthm}\n\\usepackage{xcolor}\n\\usepackage{enumitem}\n\\usepackage{geometry}\n\\geometry{margin=1in}\n\n\\begin{document}\n";

pub const LATEX_TO_MD_PROMPT: &'static str = "Convert the LaTeX source into Markdown while preserving structure.\n- Keep headings mapping section -> #, subsection -> ##.\n- Preserve math using $...$ or $$...$$.\n- Use bullet/numbered lists for itemize/enumerate.\n- Render tables as GitHub-flavored Markdown tables where possible.\n- Replace images or TikZ drawings with `[Placeholder: description]`.\n- Remove LaTeX-only preamble commands.\n\nReturn only the Markdown.\n";

pub const LATEX_TO_JSON_PROMPT: &'static str = "Convert the LaTeX table or structured content into well-formed JSON.\n- Use the first row as headers when available.\n- Preserve numeric types where obvious, otherwise use strings.\n- Output a JSON array of objects.\n- Do not include explanations.\n";

pub const MARKDOWN_TO_JSON_PROMPT: &'static str = "Convert the Markdown tables or structured lists into well-formed JSON.\n- Use the first row of each table as headers when available.\n- Preserve numeric types where obvious, otherwise use strings.\n- Output a JSON array of objects.\n- Ignore narrative sections that do not map cleanly to data rows.\n- Do not include explanations.\n";

} // verus!
