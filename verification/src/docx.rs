//! The way into docx_rs: its types, one small function for each call that
//! the library makes into it, and the building of a package from run
//! descriptors.
//!
//! What a docx_rs value holds is given a name here (`run_texts`, `run_marks`,
//! `paragraph_runs`, `docx_paragraphs`), and each call states what it does to
//! those contents, as the source of docx_rs shows it. Nothing of this is
//! proved: docx_rs is not verified.

use crate::stylemgr::text::{RunDescriptor, RunDescriptorView};
use docx_rs::{Docx, Paragraph, Run, RunFonts};
use std::io::Cursor;
use vstd::prelude::*;

verus! {

/// A run of a docx_rs paragraph.
#[verifier::external_type_specification]
#[verifier::external_body]
pub struct RunDecl(Run);

/// A paragraph of a docx_rs document.
#[verifier::external_type_specification]
#[verifier::external_body]
pub struct ParagraphDecl(Paragraph);

/// A docx_rs document.
#[verifier::external_type_specification]
#[verifier::external_body]
pub struct DocxDecl(Docx);

/// What docx_rs writes for one character of a text: the five characters
/// that XML reserves and the line feed become entities, a carriage return is
/// dropped, any other character stays.
pub open spec fn escaped_char(c: char) -> Seq<char> {
    if c == '&' {
        "&amp;"@
    } else if c == '<' {
        "&lt;"@
    } else if c == '>' {
        "&gt;"@
    } else if c == '"' {
        "&quot;"@
    } else if c == '\'' {
        "&apos;"@
    } else if c == '\n' {
        "&#xA;"@
    } else if c == '\r' {
        Seq::empty()
    } else {
        seq![c]
    }
}

/// A text as docx_rs keeps it: character by character as `escaped_char` says.
pub open spec fn escaped(text: Seq<char>) -> Seq<char>
    decreases text.len(),
{
    if text.len() == 0 {
        Seq::empty()
    } else {
        escaped(text.drop_last()) + escaped_char(text.last())
    }
}

/// The text of a run as docx_rs keeps it: the line feeds are taken out, the
/// rest is escaped.
pub open spec fn stored_text(text: Seq<char>) -> Seq<char> {
    escaped(text.filter(|c: char| c != '\n'))
}

/// One thing that is set on a docx_rs run.
pub enum RunMark {
    Bold,
    Italic,
    Size(nat),
    Font(Seq<char>),
    Color(Seq<char>),
    Underline(Seq<char>),
    Highlight(Seq<char>),
}

/// Two marks set the same thing.
pub open spec fn same_kind(a: RunMark, b: RunMark) -> bool {
    match a {
        RunMark::Bold => b is Bold,
        RunMark::Italic => b is Italic,
        RunMark::Size(_) => b is Size,
        RunMark::Font(_) => b is Font,
        RunMark::Color(_) => b is Color,
        RunMark::Underline(_) => b is Underline,
        RunMark::Highlight(_) => b is Highlight,
    }
}

/// The marks after `mark` is set: it takes the place of any mark of its kind.
pub open spec fn set_mark(marks: Set<RunMark>, mark: RunMark) -> Set<RunMark> {
    Set::new(|m: RunMark| m == mark || (marks.contains(m) && !same_kind(m, mark)))
}

/// What a docx_rs run holds: its texts in order, and what is set on it.
pub struct RunContent {
    pub texts: Seq<Seq<char>>,
    pub marks: Set<RunMark>,
}

/// The texts that a docx_rs run holds, in order, as docx_rs keeps them.
pub uninterp spec fn run_texts(run: Run) -> Seq<Seq<char>>;

/// What is set on a docx_rs run: bold and italic where they are switched
/// on, and size, ASCII font, color, underline and highlight where they have a
/// value.
pub uninterp spec fn run_marks(run: Run) -> Set<RunMark>;

/// The runs that a docx_rs paragraph holds, in order.
pub uninterp spec fn paragraph_runs(paragraph: Paragraph) -> Seq<RunContent>;

/// The paragraphs that a docx_rs document holds, in order.
pub uninterp spec fn docx_paragraphs(document: Docx) -> Seq<Seq<RunContent>>;

/// The marks that a descriptor asks for: font (escaped), size and color
/// always, the rest where the descriptor has it.
pub open spec fn marks_of(d: RunDescriptorView) -> Set<RunMark> {
    Set::new(
        |m: RunMark|
            match m {
                RunMark::Bold => d.bold,
                RunMark::Italic => d.italic,
                RunMark::Size(n) => n == d.size,
                RunMark::Font(f) => f == escaped(d.font),
                RunMark::Color(c) => c == d.font_color,
                RunMark::Underline(u) => d.underline == Some(u),
                RunMark::Highlight(h) => d.highlight_color == Some(h),
            },
    )
}

/// The run that a descriptor asks for: one text, and its marks.
pub open spec fn content_of(d: RunDescriptorView) -> RunContent {
    RunContent { texts: seq![stored_text(d.text)], marks: marks_of(d) }
}

/// The runs that a list of descriptors asks for.
pub open spec fn contents_of(list: Seq<RunDescriptor>) -> Seq<RunContent> {
    list.map_values(|d: RunDescriptor| content_of(d@))
}

/// The paragraphs that lists of descriptors ask for.
pub open spec fn paragraphs_of(lists: Seq<Vec<RunDescriptor>>) -> Seq<Seq<RunContent>> {
    lists.map_values(|l: Vec<RunDescriptor>| contents_of(l@))
}

/// `Run::new` of docx_rs: a run without texts, with nothing set.
#[verifier::external_body]
pub(crate) fn run_new() -> (r: Run)
    ensures
        run_texts(r) == Seq::<Seq<char>>::empty(),
        run_marks(r) == Set::<RunMark>::empty(),
{
    Run::new()
}

/// `Run::add_text` of docx_rs: the run has one more text, `text` without its
/// line feeds and escaped; what is set stays.
#[verifier::external_body]
pub(crate) fn run_add_text(run: Run, text: &str) -> (r: Run)
    ensures
        run_texts(r) == run_texts(run).push(stored_text(text@)),
        run_marks(r) == run_marks(run),
{
    run.add_text(text)
}

/// `Run::fonts` of docx_rs, with a `RunFonts` whose `ascii` font is `font`:
/// the font is set, escaped; the texts stay.
#[verifier::external_body]
pub(crate) fn run_fonts(run: Run, font: &str) -> (r: Run)
    ensures
        run_texts(r) == run_texts(run),
        run_marks(r) == set_mark(run_marks(run), RunMark::Font(escaped(font@))),
{
    run.fonts(RunFonts::new().ascii(font))
}

/// `Run::size` of docx_rs: the size is set; the texts stay.
#[verifier::external_body]
pub(crate) fn run_size(run: Run, size: usize) -> (r: Run)
    ensures
        run_texts(r) == run_texts(run),
        run_marks(r) == set_mark(run_marks(run), RunMark::Size(size as nat)),
{
    run.size(size)
}

/// `Run::color` of docx_rs: the color is set as it is given, which is
/// without a leading `#`; the texts stay.
#[verifier::external_body]
pub(crate) fn run_color(run: Run, color: &str) -> (r: Run)
    ensures
        run_texts(r) == run_texts(run),
        run_marks(r) == set_mark(run_marks(run), RunMark::Color(color@)),
{
    run.color(color)
}

/// `Run::bold` of docx_rs: bold is switched on; the texts stay.
#[verifier::external_body]
pub(crate) fn run_bold(run: Run) -> (r: Run)
    ensures
        run_texts(r) == run_texts(run),
        run_marks(r) == set_mark(run_marks(run), RunMark::Bold),
{
    run.bold()
}

/// `Run::italic` of docx_rs: italic is switched on; the texts stay.
#[verifier::external_body]
pub(crate) fn run_italic(run: Run) -> (r: Run)
    ensures
        run_texts(r) == run_texts(run),
        run_marks(r) == set_mark(run_marks(run), RunMark::Italic),
{
    run.italic()
}

/// `Run::underline` of docx_rs: the underline is set to the name `line`, as
/// it is given; the texts stay.
#[verifier::external_body]
pub(crate) fn run_underline(run: Run, line: &str) -> (r: Run)
    ensures
        run_texts(r) == run_texts(run),
        run_marks(r) == set_mark(run_marks(run), RunMark::Underline(line@)),
{
    run.underline(line)
}

/// `Run::highlight` of docx_rs: the highlight is set as it is given, which
/// is without a leading `#`; the texts stay.
#[verifier::external_body]
pub(crate) fn run_highlight(run: Run, color: &str) -> (r: Run)
    ensures
        run_texts(r) == run_texts(run),
        run_marks(r) == set_mark(run_marks(run), RunMark::Highlight(color@)),
{
    run.highlight(color)
}

/// `Paragraph::new` of docx_rs: a paragraph without runs. docx_rs numbers
/// its paragraphs per thread and starts again at each `Docx::build`; it gives
/// up when four thousand million were made in between.
#[verifier::external_body]
pub(crate) fn paragraph_new() -> (p: Paragraph)
    ensures
        paragraph_runs(p) == Seq::<RunContent>::empty(),
{
    Paragraph::new()
}

/// `Paragraph::add_run` of docx_rs: the run is put at the end.
#[verifier::external_body]
pub(crate) fn paragraph_add_run(paragraph: Paragraph, run: Run) -> (p: Paragraph)
    ensures
        paragraph_runs(p) == paragraph_runs(paragraph).push(
            RunContent { texts: run_texts(run), marks: run_marks(run) },
        ),
{
    paragraph.add_run(run)
}

/// `Docx::new` of docx_rs: a document without paragraphs.
#[verifier::external_body]
pub(crate) fn docx_new() -> (d: Docx)
    ensures
        docx_paragraphs(d) == Seq::<Seq<RunContent>>::empty(),
{
    Docx::new()
}

/// `Docx::add_paragraph` of docx_rs: the paragraph is put at the end.
#[verifier::external_body]
pub(crate) fn docx_add_paragraph(document: Docx, paragraph: Paragraph) -> (d: Docx)
    ensures
        docx_paragraphs(d) == docx_paragraphs(document).push(paragraph_runs(paragraph)),
{
    document.add_paragraph(paragraph)
}

/// `Docx::build` and `XMLDocx::pack` of docx_rs, into memory: the bytes of
/// the package, or the text of the packaging error. Nothing is claimed of
/// either.
#[verifier::external_body]
pub(crate) fn docx_pack(document: Docx) -> Result<Vec<u8>, String> {
    let mut out = Cursor::new(Vec::new());
    match document.build().pack(&mut out) {
        Ok(()) => Ok(out.into_inner()),
        Err(e) => Err(e.to_string()),
    }
}

/// The docx_rs run for a descriptor: its text, and font, size and color
/// always, the rest where the descriptor has it.
pub fn build_run(descriptor: &RunDescriptor) -> (run: Run)
    ensures
        run_texts(run) == seq![stored_text(descriptor@.text)],
        run_marks(run) == marks_of(descriptor@),
{
    let mut run = run_add_text(run_new(), descriptor.text.as_str());
    run = run_fonts(run, descriptor.font.as_str());
    run = run_size(run, descriptor.size);
    run = run_color(run, descriptor.font_color.as_str());
    if descriptor.bold {
        run = run_bold(run);
    }
    if descriptor.italic {
        run = run_italic(run);
    }
    match &descriptor.underline {
        Some(line) => {
            run = run_underline(run, line.as_str());
        },
        None => {},
    }
    match &descriptor.highlight_color {
        Some(color) => {
            run = run_highlight(run, color.as_str());
        },
        None => {},
    }
    assert(run_marks(run) =~= marks_of(descriptor@));
    run
}

/// The docx_rs paragraph with the runs of these descriptors, in order.
pub fn build_paragraph(descriptors: &Vec<RunDescriptor>) -> (paragraph: Paragraph)
    ensures
        paragraph_runs(paragraph) == contents_of(descriptors@),
{
    let mut paragraph = paragraph_new();
    let n: usize = descriptors.len();
    let mut k: usize = 0;
    while k < n
        invariant
            n == descriptors@.len(),
            k <= n,
            paragraph_runs(paragraph) == contents_of(descriptors@.take(k as int)),
        decreases n - k,
    {
        let run = build_run(&descriptors[k]);
        paragraph = paragraph_add_run(paragraph, run);
        assert(contents_of(descriptors@.take(k + 1)) =~= contents_of(
            descriptors@.take(k as int),
        ).push(content_of(descriptors@[k as int]@)));
        k += 1;
    }
    assert(descriptors@.take(n as int) =~= descriptors@);
    paragraph
}

/// The docx_rs document with one paragraph for each list of descriptors, in
/// order.
pub fn build_docx(paragraphs: &Vec<Vec<RunDescriptor>>) -> (document: Docx)
    ensures
        docx_paragraphs(document) == paragraphs_of(paragraphs@),
{
    let mut document = docx_new();
    let n: usize = paragraphs.len();
    let mut k: usize = 0;
    while k < n
        invariant
            n == paragraphs@.len(),
            k <= n,
            docx_paragraphs(document) == paragraphs_of(paragraphs@.take(k as int)),
        decreases n - k,
    {
        let paragraph = build_paragraph(&paragraphs[k]);
        document = docx_add_paragraph(document, paragraph);
        assert(paragraphs_of(paragraphs@.take(k + 1)) =~= paragraphs_of(
            paragraphs@.take(k as int),
        ).push(contents_of(paragraphs@[k as int]@)));
        k += 1;
    }
    assert(paragraphs@.take(n as int) =~= paragraphs@);
    document
}

} // verus!
