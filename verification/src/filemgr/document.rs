//! A document: paragraphs in reading order, and what is known about the
//! document as a whole.

use crate::docx::{
    build_docx, content_of, contents_of, docx_pack, docx_paragraphs, paragraphs_of, RunContent,
};
use crate::stylemgr::structural::{full_text, tagged_text, StyledParagraph};
use crate::stylemgr::text::{RunDescriptor, RunDescriptorView, StyledTextView};
use vstd::prelude::*;
use vstd::string::*;

verus! {

broadcast use vstd::string::group_string_axioms;

/// The texts of a list of strings.
pub open spec fn texts(list: Seq<String>) -> Seq<Seq<char>> {
    list.map_values(|s: String| s@)
}

/// What a [`Metadata`] is, as plain values.
pub struct MetadataView {
    pub title: Seq<char>,
    pub authors: Option<Seq<Seq<char>>>,
    pub description: Option<Seq<char>>,
    pub category: Option<Seq<char>>,
    pub version: Option<Seq<char>>,
    pub status: Option<Seq<char>>,
    pub language: Option<Seq<char>>,
    pub keywords: Option<Seq<Seq<char>>>,
}

impl MetadataView {
    /// A title and nothing else.
    pub open spec fn titled(title: Seq<char>) -> MetadataView {
        MetadataView {
            title,
            authors: None,
            description: None,
            category: None,
            version: None,
            status: None,
            language: None,
            keywords: None,
        }
    }
}

/// What is known about a document as a whole.
#[derive(Debug, PartialEq)]
pub struct Metadata {
    title: String,
    authors: Option<Vec<String>>,
    description: Option<String>,
    category: Option<String>,
    version: Option<String>,
    status: Option<String>,
    language: Option<String>,
    keywords: Option<Vec<String>>,
}

/// The text of an optional string.
pub open spec fn text_of(s: Option<String>) -> Option<Seq<char>> {
    match s {
        Some(t) => Some(t@),
        None => None,
    }
}

/// The texts of an optional list of strings.
pub open spec fn texts_of(list: Option<Vec<String>>) -> Option<Seq<Seq<char>>> {
    match list {
        Some(l) => Some(texts(l@)),
        None => None,
    }
}

impl View for Metadata {
    type V = MetadataView;

    closed spec fn view(&self) -> MetadataView {
        MetadataView {
            title: self.title@,
            authors: texts_of(self.authors),
            description: text_of(self.description),
            category: text_of(self.category),
            version: text_of(self.version),
            status: text_of(self.status),
            language: text_of(self.language),
            keywords: texts_of(self.keywords),
        }
    }
}

impl Default for Metadata {
    fn default() -> (m: Self)
        ensures
            m@ == MetadataView::titled(Seq::empty()),
    {
        Metadata {
            title: String::new(),
            authors: None,
            description: None,
            category: None,
            version: None,
            status: None,
            language: None,
            keywords: None,
        }
    }
}

impl Clone for Metadata {
    fn clone(&self) -> (res: Self)
        ensures
            res@ == self@,
    {
        let res = Metadata {
            title: self.title.clone(),
            authors: self.authors.clone(),
            description: self.description.clone(),
            category: self.category.clone(),
            version: self.version.clone(),
            status: self.status.clone(),
            language: self.language.clone(),
            keywords: self.keywords.clone(),
        };
        proof {
            if self.authors is Some {
                assert(texts(res.authors->0@) =~= texts(self.authors->0@));
            }
            if self.keywords is Some {
                assert(texts(res.keywords->0@) =~= texts(self.keywords->0@));
            }
        }
        res
    }
}

impl Metadata {
    /// Metadata with a title and nothing else.
    pub fn new(title: &str) -> (m: Self)
        ensures
            m@ == MetadataView::titled(title@),
    {
        Metadata {
            title: String::from_str(title),
            authors: None,
            description: None,
            category: None,
            version: None,
            status: None,
            language: None,
            keywords: None,
        }
    }

    /// The same metadata with these authors.
    #[must_use]
    pub fn with_authors(self, authors: Vec<String>) -> (m: Self)
        ensures
            m@ == (MetadataView { authors: Some(texts(authors@)), ..self@ }),
    {
        let mut m = self;
        m.authors = Some(authors);
        m
    }

    /// The same metadata with this description.
    #[must_use]
    pub fn with_description(self, description: &str) -> (m: Self)
        ensures
            m@ == (MetadataView { description: Some(description@), ..self@ }),
    {
        let mut m = self;
        m.description = Some(String::from_str(description));
        m
    }

    /// The same metadata with this category.
    #[must_use]
    pub fn with_category(self, category: &str) -> (m: Self)
        ensures
            m@ == (MetadataView { category: Some(category@), ..self@ }),
    {
        let mut m = self;
        m.category = Some(String::from_str(category));
        m
    }

    /// The same metadata with this version.
    #[must_use]
    pub fn with_version(self, version: &str) -> (m: Self)
        ensures
            m@ == (MetadataView { version: Some(version@), ..self@ }),
    {
        let mut m = self;
        m.version = Some(String::from_str(version));
        m
    }

    /// The same metadata with this status.
    #[must_use]
    pub fn with_status(self, status: &str) -> (m: Self)
        ensures
            m@ == (MetadataView { status: Some(status@), ..self@ }),
    {
        let mut m = self;
        m.status = Some(String::from_str(status));
        m
    }

    /// The same metadata with this language.
    #[must_use]
    pub fn with_language(self, language: &str) -> (m: Self)
        ensures
            m@ == (MetadataView { language: Some(language@), ..self@ }),
    {
        let mut m = self;
        m.language = Some(String::from_str(language));
        m
    }

    /// The same metadata with these keywords.
    #[must_use]
    pub fn with_keywords(self, keywords: Vec<String>) -> (m: Self)
        ensures
            m@ == (MetadataView { keywords: Some(texts(keywords@)), ..self@ }),
    {
        let mut m = self;
        m.keywords = Some(keywords);
        m
    }

    pub fn title(&self) -> (t: &str)
        ensures
            t@ == self@.title,
    {
        self.title.as_str()
    }

    pub fn authors(&self) -> (a: Option<&Vec<String>>)
        ensures
            self@.authors == match a {
                Some(list) => Some(texts(list@)),
                None => None,
            },
    {
        self.authors.as_ref()
    }

    pub fn description(&self) -> (d: Option<&str>)
        ensures
            self@.description == match d {
                Some(t) => Some(t@),
                None => None,
            },
    {
        match &self.description {
            Some(t) => Some(t.as_str()),
            None => None,
        }
    }

    pub fn category(&self) -> (c: Option<&str>)
        ensures
            self@.category == match c {
                Some(t) => Some(t@),
                None => None,
            },
    {
        match &self.category {
            Some(t) => Some(t.as_str()),
            None => None,
        }
    }

    pub fn version(&self) -> (v: Option<&str>)
        ensures
            self@.version == match v {
                Some(t) => Some(t@),
                None => None,
            },
    {
        match &self.version {
            Some(t) => Some(t.as_str()),
            None => None,
        }
    }

    pub fn status(&self) -> (s: Option<&str>)
        ensures
            self@.status == match s {
                Some(t) => Some(t@),
                None => None,
            },
    {
        match &self.status {
            Some(t) => Some(t.as_str()),
            None => None,
        }
    }

    pub fn language(&self) -> (l: Option<&str>)
        ensures
            self@.language == match l {
                Some(t) => Some(t@),
                None => None,
            },
    {
        match &self.language {
            Some(t) => Some(t.as_str()),
            None => None,
        }
    }

    pub fn keywords(&self) -> (k: Option<&Vec<String>>)
        ensures
            self@.keywords == match k {
                Some(list) => Some(texts(list@)),
                None => None,
            },
    {
        self.keywords.as_ref()
    }
}

/// The failure type of std's input and output.
#[verifier::external_type_specification]
#[verifier::external_body]
pub struct IoErrorDecl(std::io::Error);

/// Why a document could not be saved.
#[derive(Debug)]
pub enum DocumentError {
    /// The file could not be made or written.
    Io(std::io::Error),
    /// The package could not be put together.
    DocxPackaging(String),
}

/// What std's `Display` writes for an input or output error. Nothing is
/// claimed of the text.
#[verifier::external_body]
fn io_error_text(error: &std::io::Error) -> String {
    error.to_string()
}

/// The message of an input or output failure whose own text is `cause`.
pub fn io_message(cause: &str) -> (s: String)
    ensures
        s@ == "IO error: "@ + cause@,
{
    let mut s = String::from_str("IO error: ");
    s.append(cause);
    s
}

/// The message of a packaging failure whose own text is `cause`.
pub fn packaging_message(cause: &str) -> (s: String)
    ensures
        s@ == "Document packaging error: "@ + cause@,
{
    let mut s = String::from_str("Document packaging error: ");
    s.append(cause);
    s
}

impl DocumentError {
    /// The error as a message: what kind of failure it is, then the text of
    /// its cause.
    pub fn to_string(&self) -> (s: String)
        ensures
            match self {
                DocumentError::Io(_) => exists|cause: Seq<char>| s@ == "IO error: "@ + cause,
                DocumentError::DocxPackaging(cause) => s@ == "Document packaging error: "@
                    + cause@,
            },
    {
        match self {
            DocumentError::Io(error) => {
                let cause = io_error_text(error);
                io_message(cause.as_str())
            },
            DocumentError::DocxPackaging(cause) => packaging_message(cause.as_str()),
        }
    }
}

/// What a [`Document`] is, as plain values.
pub struct DocumentView {
    pub paragraphs: Seq<Seq<StyledTextView>>,
    pub metadata: MetadataView,
}

/// The texts of the paragraphs, one after the other, with nothing between
/// them: tagged run by run if `tagged`, else plain.
pub open spec fn document_text(paragraphs: Seq<Seq<StyledTextView>>, tagged: bool) -> Seq<char>
    decreases paragraphs.len(),
{
    if paragraphs.len() == 0 {
        Seq::empty()
    } else {
        document_text(paragraphs.drop_last(), tagged) + (if tagged {
            tagged_text(paragraphs.last())
        } else {
            full_text(paragraphs.last())
        })
    }
}

/// What an encoder needs of each run of a paragraph.
pub open spec fn paragraph_descriptors(runs: Seq<StyledTextView>) -> Seq<RunDescriptorView> {
    runs.map_values(|r: StyledTextView| r.descriptor())
}

/// What an encoder needs of each run of each paragraph.
pub open spec fn document_descriptors(paragraphs: Seq<Seq<StyledTextView>>) -> Seq<
    Seq<RunDescriptorView>,
> {
    paragraphs.map_values(|p: Seq<StyledTextView>| paragraph_descriptors(p))
}

/// The views of a list of run descriptors.
pub open spec fn descriptor_views(list: Seq<RunDescriptor>) -> Seq<RunDescriptorView> {
    list.map_values(|d: RunDescriptor| d@)
}

/// The views of a list of lists of run descriptors.
pub open spec fn descriptor_lists(lists: Seq<Vec<RunDescriptor>>) -> Seq<Seq<RunDescriptorView>> {
    lists.map_values(|l: Vec<RunDescriptor>| descriptor_views(l@))
}

/// What docx_rs is to hold of these paragraphs: for each run, in order,
/// what its descriptor asks for.
pub open spec fn encoded(paragraphs: Seq<Seq<StyledTextView>>) -> Seq<Seq<RunContent>> {
    paragraphs.map_values(
        |p: Seq<StyledTextView>| p.map_values(|r: StyledTextView| content_of(r.descriptor())),
    )
}

/// What the answer of the packing means for the caller: the bytes as they
/// are, or a packaging error with the text of the cause.
pub fn packaged(outcome: Result<Vec<u8>, String>) -> (res: Result<Vec<u8>, DocumentError>)
    ensures
        match outcome {
            Ok(bytes) => res == Ok::<Vec<u8>, DocumentError>(bytes),
            Err(cause) => res == Err::<Vec<u8>, DocumentError>(
                DocumentError::DocxPackaging(cause),
            ),
        },
{
    match outcome {
        Ok(bytes) => Ok(bytes),
        Err(cause) => Err(DocumentError::DocxPackaging(cause)),
    }
}

/// A document: paragraphs in reading order, and its metadata.
pub struct Document {
    content: Vec<StyledParagraph>,
    metadata: Metadata,
}

impl View for Document {
    type V = DocumentView;

    closed spec fn view(&self) -> DocumentView {
        DocumentView {
            paragraphs: self.content@.map_values(|p: StyledParagraph| p@),
            metadata: self.metadata@,
        }
    }
}

impl Document {
    /// A document with a title and no paragraph.
    #[must_use]
    pub fn new(title: &str) -> (d: Self)
        ensures
            d@ == (DocumentView {
                paragraphs: Seq::empty(),
                metadata: MetadataView::titled(title@),
            }),
    {
        let d = Document { content: Vec::new(), metadata: Metadata::new(title) };
        assert(d@.paragraphs =~= Seq::empty());
        d
    }

    /// A document with a title and these paragraphs.
    #[must_use]
    pub fn with_content(title: &str, content: Vec<StyledParagraph>) -> (d: Self)
        ensures
            d@ == (DocumentView {
                paragraphs: content@.map_values(|p: StyledParagraph| p@),
                metadata: MetadataView::titled(title@),
            }),
    {
        Document { content, metadata: Metadata::new(title) }
    }

    pub fn get_metadata(&self) -> (m: &Metadata)
        ensures
            m@ == self@.metadata,
    {
        &self.metadata
    }

    /// The metadata, to be changed in place: the document has whatever is
    /// written there, and its paragraphs stay as they are.
    pub fn get_metadata_mut(&mut self) -> (m: &mut Metadata)
        ensures
            m@ == old(self)@.metadata,
            final(self)@ == (DocumentView { metadata: final(m)@, ..old(self)@ }),
    {
        &mut self.metadata
    }

    /// Replaces the metadata as a whole.
    pub fn set_metadata(&mut self, metadata: Metadata) -> (d: &mut Self)
        ensures
            d@ == (DocumentView { metadata: metadata@, ..old(self)@ }),
            *final(self) == *final(d),
    {
        self.metadata = metadata;
        self
    }

    /// Puts a paragraph at the end of the document.
    pub fn add_paragraph(&mut self, paragraph: StyledParagraph) -> (d: &mut Self)
        ensures
            d@ == (DocumentView {
                paragraphs: old(self)@.paragraphs.push(paragraph@),
                ..old(self)@
            }),
            *final(self) == *final(d),
    {
        self.content.push(paragraph);
        assert(self@.paragraphs =~= old(self)@.paragraphs.push(paragraph@));
        self
    }

    /// Takes paragraph `index` out of the document and hands it back; the
    /// paragraphs after it move one place down. Beyond the last paragraph
    /// there is nothing to take, and nothing changes.
    pub fn remove_paragraph(&mut self, index: usize) -> (removed: Option<StyledParagraph>)
        ensures
            index < old(self)@.paragraphs.len() ==> (removed matches Some(p) && p@
                == old(self)@.paragraphs[index as int]) && final(self)@ == (DocumentView {
                paragraphs: old(self)@.paragraphs.remove(index as int),
                ..old(self)@
            }),
            index >= old(self)@.paragraphs.len() ==> removed is None && *final(self) == *old(self),
    {
        if index < self.content.len() {
            let p = self.content.remove(index);
            assert(self@.paragraphs =~= old(self)@.paragraphs.remove(index as int));
            Some(p)
        } else {
            None
        }
    }

    /// Paragraph `index`, if there is one.
    pub fn get_paragraph(&self, index: usize) -> (p: Option<&StyledParagraph>)
        ensures
            index < self@.paragraphs.len() ==> (p matches Some(q) && q@
                == self@.paragraphs[index as int]),
            index >= self@.paragraphs.len() ==> p is None,
    {
        if index < self.content.len() {
            Some(&self.content[index])
        } else {
            None
        }
    }

    /// Paragraph `index`, if there is one, to be changed in place: the
    /// document has whatever is written there, and all else stays as it is.
    pub fn get_paragraph_mut(&mut self, index: usize) -> (p: Option<&mut StyledParagraph>)
        ensures
            index >= old(self)@.paragraphs.len() ==> p is None && *final(self) == *old(self),
            index < old(self)@.paragraphs.len() ==> (p matches Some(q) && q@
                == old(self)@.paragraphs[index as int] && final(self)@.paragraphs
                == old(self)@.paragraphs.update(index as int, final(q)@)),
            final(self)@.metadata == old(self)@.metadata,
    {
        if index < self.content.len() {
            Some(&mut self.content[index])
        } else {
            None
        }
    }

    /// The number of paragraphs.
    pub fn paragraph_count(&self) -> (n: usize)
        ensures
            n == self@.paragraphs.len(),
    {
        self.content.len()
    }

    /// Whether the document has no paragraph.
    pub fn is_empty(&self) -> (b: bool)
        ensures
            b == (self@.paragraphs.len() == 0),
    {
        self.content.len() == 0
    }

    /// The text of the whole document: the texts of its paragraphs, one after
    /// the other, with nothing between them. With `tagged`, every run stands
    /// between its tags.
    pub fn get_text(&self, tagged: bool) -> (s: String)
        ensures
            s@ == document_text(self@.paragraphs, tagged),
    {
        let mut buffer = String::new();
        let n: usize = self.content.len();
        let mut k: usize = 0;
        let ghost all = self@.paragraphs;
        proof {
            assert(all.take(0) =~= Seq::<Seq<StyledTextView>>::empty());
        }
        while k < n
            invariant
                all == self@.paragraphs,
                n == all.len(),
                k <= n,
                buffer@ == document_text(all.take(k as int), tagged),
            decreases n - k,
        {
            let part = if tagged {
                self.content[k].parse_as_raw_tagged_text()
            } else {
                self.content[k].full_text()
            };
            proof {
                assert(all[k as int] == self.content@[k as int]@);
                assert(all.take(k + 1).drop_last() =~= all.take(k as int));
                assert(all.take(k + 1).last() == all[k as int]);
            }
            buffer.append(part.as_str());
            k += 1;
        }
        proof {
            assert(all.take(n as int) =~= all);
        }
        buffer
    }

    /// What an encoder needs of the document: for each paragraph, in order,
    /// the descriptors of its runs, in order.
    pub fn run_descriptors(&self) -> (lists: Vec<Vec<RunDescriptor>>)
        ensures
            descriptor_lists(lists@) == document_descriptors(self@.paragraphs),
    {
        let mut lists: Vec<Vec<RunDescriptor>> = Vec::new();
        let n: usize = self.content.len();
        let mut k: usize = 0;
        while k < n
            invariant
                n == self.content@.len(),
                k <= n,
                lists@.len() == k,
                forall|j: int|
                    0 <= j < k ==> descriptor_views((#[trigger] lists@[j])@)
                        == paragraph_descriptors(self.content@[j]@),
            decreases n - k,
        {
            lists.push(self.content[k].run_descriptors());
            k += 1;
        }
        assert(descriptor_lists(lists@) =~= document_descriptors(self@.paragraphs));
        lists
    }

    /// The document as docx_rs holds it: one paragraph for each paragraph,
    /// one run for each run, with what the run's descriptor asks for.
    pub fn to_docx(&self) -> (document: docx_rs::Docx)
        ensures
            docx_paragraphs(document) == encoded(self@.paragraphs),
    {
        let lists = self.run_descriptors();
        let document = build_docx(&lists);
        proof {
            let wanted = encoded(self@.paragraphs);
            let built = paragraphs_of(lists@);
            assert(descriptor_lists(lists@).len() == lists@.len());
            assert(document_descriptors(self@.paragraphs).len() == self@.paragraphs.len());
            assert(built.len() == wanted.len());
            assert forall|i: int| 0 <= i < built.len() implies built[i] == wanted[i] by {
                assert(descriptor_lists(lists@)[i] == document_descriptors(self@.paragraphs)[i]);
                let list = lists@[i]@;
                let runs = self@.paragraphs[i];
                assert(descriptor_views(list) == paragraph_descriptors(runs));
                assert(descriptor_views(list).len() == list.len());
                assert(paragraph_descriptors(runs).len() == runs.len());
                assert forall|j: int| 0 <= j < list.len() implies contents_of(list)[j]
                    == content_of(runs[j].descriptor()) by {
                    assert(descriptor_views(list)[j] == paragraph_descriptors(runs)[j]);
                }
                assert(contents_of(list) =~= runs.map_values(
                    |r: StyledTextView| content_of(r.descriptor()),
                ));
            }
            assert(built =~= wanted);
        }
        document
    }

    /// The document as the bytes of a word-processing package: `to_docx`,
    /// packed by docx_rs. Whether the packing succeeds is for docx_rs to say;
    /// what comes of its answer is what `packaged` says.
    pub fn to_docx_bytes(&self) -> (res: Result<Vec<u8>, DocumentError>)
        ensures
            res matches Err(e) ==> e is DocxPackaging,
    {
        packaged(docx_pack(self.to_docx()))
    }
}

} // verus!
