//! A run: a piece of text with the one style it is written in.

use super::structural::ApplicableStyles;
use crate::docx::{build_run, marks_of, run_marks, run_texts, stored_text};
use super::style::{is_hex_color, lookup_font, FontLookup, Style, StyleError, StyleView};
use vstd::prelude::*;
use vstd::string::*;

verus! {

broadcast use vstd::string::group_string_axioms;

/// What a [`StyledText`] is, as plain values.
pub struct StyledTextView {
    pub text: Seq<char>,
    pub style: StyleView,
}

/// What a [`RunDescriptor`] is, as plain values.
pub struct RunDescriptorView {
    pub text: Seq<char>,
    pub bold: bool,
    pub italic: bool,
    pub underline: Option<Seq<char>>,
    pub size: nat,
    pub font: Seq<char>,
    pub font_color: Seq<char>,
    pub highlight_color: Option<Seq<char>>,
}

impl StyleView {
    /// The style after `command`, where `answer` is what the system said of
    /// the font that a `Font` command names. `None` where the command is
    /// refused: a font that was not found, a color that is not hexadecimal.
    pub open spec fn applied(self, command: ApplicableStyles, answer: FontLookup) -> Option<
        StyleView,
    > {
        match command {
            ApplicableStyles::Bold => Some(StyleView { bold: !self.bold, ..self }),
            ApplicableStyles::Italic => Some(StyleView { italic: !self.italic, ..self }),
            ApplicableStyles::Underline(u) => Some(StyleView { underline: u, ..self }),
            ApplicableStyles::Size(n) => Some(StyleView { size: n, ..self }),
            ApplicableStyles::Font(name) => if answer is Found {
                Some(StyleView { font: name@, ..self })
            } else {
                None
            },
            ApplicableStyles::Color(c) => if is_hex_color(c@) {
                Some(StyleView { font_color: c@, ..self })
            } else {
                None
            },
            ApplicableStyles::Highlight(None) => Some(StyleView { highlight_color: None, ..self }),
            ApplicableStyles::Highlight(Some(c)) => if is_hex_color(c@) {
                Some(StyleView { highlight_color: Some(c@), ..self })
            } else {
                None
            },
        }
    }
}

/// `error` is the one that a refused `command` is answered with.
pub open spec fn refusal(command: ApplicableStyles, answer: FontLookup, error: StyleError) -> bool {
    match command {
        ApplicableStyles::Font(name) => match answer {
            FontLookup::Found => false,
            FontLookup::NotFound => error matches StyleError::FontNotFound(n) && n@ == name@,
            FontLookup::Failed(cause) => error matches StyleError::FontQueryError(n, c) && n@
                == name@ && c == cause,
        },
        ApplicableStyles::Color(c) => error matches StyleError::InvalidHexColor(t) && t@ == c@,
        ApplicableStyles::Highlight(Some(c)) => error matches StyleError::InvalidHexColor(t) && t@
            == c@,
        _ => false,
    }
}

impl StyledTextView {
    /// The run between its opening and closing tag.
    pub open spec fn tagged(self) -> Seq<char> {
        "[["@ + self.style.tag() + "]]"@ + self.text + "[[/"@ + self.style.tag() + "]]"@
    }

    /// What an encoder needs of the run: the colors without their `#`, the
    /// underline by its name.
    pub open spec fn descriptor(self) -> RunDescriptorView {
        RunDescriptorView {
            text: self.text,
            bold: self.style.bold,
            italic: self.style.italic,
            underline: match self.style.underline {
                Some(u) => Some(u.name()),
                None => None,
            },
            size: self.style.size as nat,
            font: self.style.font,
            font_color: self.style.font_color.skip(1),
            highlight_color: match self.style.highlight_color {
                Some(c) => Some(c.skip(1)),
                None => None,
            },
        }
    }
}

/// A piece of text and the style it is written in.
#[derive(Debug, PartialEq)]
pub struct StyledText {
    pub text: String,
    pub style: Style,
}

impl View for StyledText {
    type V = StyledTextView;

    open spec fn view(&self) -> StyledTextView {
        StyledTextView { text: self.text@, style: self.style@ }
    }
}

impl Clone for StyledText {
    fn clone(&self) -> (res: Self)
        ensures
            res == *self,
    {
        StyledText { text: self.text.clone(), style: self.style.clone() }
    }
}

impl Default for StyledText {
    fn default() -> (s: Self)
        ensures
            s@ == (StyledTextView { text: Seq::empty(), style: StyleView::initial() }),
    {
        StyledText { text: String::new(), style: Style::default() }
    }
}

/// All that a word-processing package needs to know of one run.
#[derive(Debug, PartialEq)]
pub struct RunDescriptor {
    pub text: String,
    pub bold: bool,
    pub italic: bool,
    pub underline: Option<String>,
    pub size: usize,
    pub font: String,
    pub font_color: String,
    pub highlight_color: Option<String>,
}

impl View for RunDescriptor {
    type V = RunDescriptorView;

    open spec fn view(&self) -> RunDescriptorView {
        RunDescriptorView {
            text: self.text@,
            bold: self.bold,
            italic: self.italic,
            underline: match self.underline {
                Some(u) => Some(u@),
                None => None,
            },
            size: self.size as nat,
            font: self.font@,
            font_color: self.font_color@,
            highlight_color: match self.highlight_color {
                Some(c) => Some(c@),
                None => None,
            },
        }
    }
}

impl Clone for RunDescriptor {
    fn clone(&self) -> (res: Self)
        ensures
            res == *self,
    {
        RunDescriptor {
            text: self.text.clone(),
            bold: self.bold,
            italic: self.italic,
            underline: self.underline.clone(),
            size: self.size,
            font: self.font.clone(),
            font_color: self.font_color.clone(),
            highlight_color: self.highlight_color.clone(),
        }
    }
}

/// A color without the `#` that it starts with.
fn without_hash(color: &str) -> (digits: String)
    requires
        is_hex_color(color@),
    ensures
        digits@ == color@.skip(1),
{
    let n: usize = color.unicode_len();
    String::from_str(color.substring_char(1, n))
}

impl StyledText {
    pub fn new(text: String, style: Style) -> (s: Self)
        ensures
            s.text == text,
            s.style == style,
    {
        StyledText { text, style }
    }

    /// The text between an opening and a closing tag that both hold the
    /// style's canonical tag.
    pub fn apply_style_tagging(&self) -> (s: String)
        ensures
            s@ == self@.tagged(),
    {
        let tag = self.style.to_string();
        let mut out = String::from_str("[[");
        out.append(tag.as_str());
        out.append("]]");
        out.append(self.text.as_str());
        out.append("[[/");
        out.append(tag.as_str());
        out.append("]]");
        assert(out@ =~= self@.tagged());
        out
    }

    /// What an encoder needs of this run.
    pub fn to_run_descriptor(&self) -> (d: RunDescriptor)
        ensures
            d@ == self@.descriptor(),
    {
        let underline = match self.style.underline() {
            Some(u) => Some(u.to_string()),
            None => None,
        };
        let highlight_color = match self.style.highlight_color() {
            Some(c) => Some(without_hash(c)),
            None => None,
        };
        RunDescriptor {
            text: self.text.clone(),
            bold: self.style.bold(),
            italic: self.style.italic(),
            underline,
            size: self.style.size() as usize,
            font: String::from_str(self.style.font()),
            font_color: without_hash(self.style.font_color()),
            highlight_color,
        }
    }

    /// The docx_rs run for this text: it holds the text, as docx_rs keeps
    /// it, and has set on it what the descriptor of this text asks for.
    pub fn apply_to_raw(&self) -> (run: docx_rs::Run)
        ensures
            run_texts(run) == seq![stored_text(self@.text)],
            run_marks(run) == marks_of(self@.descriptor()),
    {
        let descriptor = self.to_run_descriptor();
        build_run(&descriptor)
    }

    /// `after` and `res` are what `command` makes of the run `before`, given
    /// the system's `answer` on the font: an accepted command changes the
    /// style and nothing else, a refused one changes nothing at all.
    pub open spec fn changed(
        before: StyledText,
        command: ApplicableStyles,
        answer: FontLookup,
        res: Result<(), StyleError>,
        after: StyledText,
    ) -> bool {
        match before.style@.applied(command, answer) {
            Some(style) => res is Ok && after.style@ == style && after.text == before.text,
            None => after == before && (res matches Err(e) && refusal(command, answer, e)),
        }
    }

    /// Applies `command` to the style of this run, given the system's answer
    /// on the font that a `Font` command names (for any other command the
    /// answer is not looked at).
    pub fn change_style_with_lookup(
        &mut self,
        command: ApplicableStyles,
        answer: FontLookup,
    ) -> (res: Result<(), StyleError>)
        ensures
            Self::changed(*old(self), command, answer, res, *final(self)),
    {
        let style = self.style.clone();
        let changed = match command {
            ApplicableStyles::Bold => Ok(style.switch_bold()),
            ApplicableStyles::Italic => Ok(style.switch_italic()),
            ApplicableStyles::Underline(u) => Ok(style.set_underline(u)),
            ApplicableStyles::Size(n) => Ok(style.change_size(n)),
            ApplicableStyles::Color(c) => style.change_font_color(c),
            ApplicableStyles::Highlight(c) => style.change_font_highlight(c),
            ApplicableStyles::Font(name) => style.change_font_with_lookup(name, answer),
        };
        match changed {
            Ok(style) => {
                self.style = style;
                Ok(())
            },
            Err(e) => Err(e),
        }
    }

    /// Applies `command` to the style of this run. Only a `Font` command asks
    /// the system, and whatever it answers, the outcome is the one that
    /// `change_style_with_lookup` gives for that answer.
    pub fn change_style(&mut self, command: ApplicableStyles) -> (res: Result<(), StyleError>)
        ensures
            exists|answer: FontLookup|
                Self::changed(*old(self), command, answer, res, *final(self)),
            command !is Font ==> Self::changed(
                *old(self),
                command,
                FontLookup::Found,
                res,
                *final(self),
            ),
            command matches ApplicableStyles::Font(name) && name@.contains('\0') ==> Self::changed(
                *old(self),
                command,
                FontLookup::NotFound,
                res,
                *final(self),
            ),
    {
        let answer = match &command {
            ApplicableStyles::Font(name) => lookup_font(name.as_str()),
            _ => FontLookup::Found,
        };
        let res = self.change_style_with_lookup(command, answer);
        assert(Self::changed(*old(self), command, answer, res, *self));
        res
    }
}

} // verus!
