//! The visual attributes of a run of text, their validation and their
//! canonical tag.

use crate::chars::to_chars;
use font_kit::error::SelectionError;
use font_kit::source::SystemSource;
use vstd::prelude::*;
use vstd::string::*;

verus! {

broadcast use vstd::string::group_string_axioms;

/// Whether `c` is one of `0-9`, `a-f`, `A-F`.
pub open spec fn is_hex_digit(c: char) -> bool {
    ||| '0' <= c <= '9'
    ||| 'a' <= c <= 'f'
    ||| 'A' <= c <= 'F'
}

/// A color in hexadecimal notation: `#`, then six or eight hexadecimal digits.
pub open spec fn is_hex_color(s: Seq<char>) -> bool {
    &&& (s.len() == 7 || s.len() == 9)
    &&& s[0] == '#'
    &&& forall|i: int| 1 <= i < s.len() ==> is_hex_digit(#[trigger] s[i])
}

/// The character that writes the digit `d`.
pub open spec fn digit_char(d: nat) -> char {
    if d == 0 {
        '0'
    } else if d == 1 {
        '1'
    } else if d == 2 {
        '2'
    } else if d == 3 {
        '3'
    } else if d == 4 {
        '4'
    } else if d == 5 {
        '5'
    } else if d == 6 {
        '6'
    } else if d == 7 {
        '7'
    } else if d == 8 {
        '8'
    } else {
        '9'
    }
}

/// `n` in decimal notation, without leading zeros.
pub open spec fn decimal(n: nat) -> Seq<char>
    decreases n,
{
    if n < 10 {
        seq![digit_char(n)]
    } else {
        decimal(n / 10).push(digit_char(n % 10))
    }
}

/// `word` if `on`, nothing otherwise.
pub open spec fn flag(on: bool, word: Seq<char>) -> Seq<char> {
    if on {
        word
    } else {
        Seq::empty()
    }
}

/// The underline renderings a run can have. No underline at all is `None` in
/// [`Style`].
#[derive(Debug, Clone, Copy, PartialEq)]
pub enum UnderlineStyle {
    Single,
    Words,
    Double,
    Thick,
    Dotted,
    DottedHeavy,
    Dash,
    DashedHeavy,
    DashLong,
    DashLongHeavy,
    DotDash,
    DashDotHeavy,
    DotDotDash,
    DashDotDotHeavy,
    Wave,
    WavyHeavy,
    WavyDouble,
}

impl UnderlineStyle {
    /// The variant's name as word-processing packages spell it.
    pub open spec fn name(self) -> Seq<char> {
        match self {
            UnderlineStyle::Single => "single"@,
            UnderlineStyle::Words => "words"@,
            UnderlineStyle::Double => "double"@,
            UnderlineStyle::Thick => "thick"@,
            UnderlineStyle::Dotted => "dotted"@,
            UnderlineStyle::DottedHeavy => "dottedHeavy"@,
            UnderlineStyle::Dash => "dash"@,
            UnderlineStyle::DashedHeavy => "dashedHeavy"@,
            UnderlineStyle::DashLong => "dashLong"@,
            UnderlineStyle::DashLongHeavy => "dashLongHeavy"@,
            UnderlineStyle::DotDash => "dotDash"@,
            UnderlineStyle::DashDotHeavy => "dashDotHeavy"@,
            UnderlineStyle::DotDotDash => "dotDotDash"@,
            UnderlineStyle::DashDotDotHeavy => "dashDotDotHeavy"@,
            UnderlineStyle::Wave => "wave"@,
            UnderlineStyle::WavyHeavy => "wavyHeavy"@,
            UnderlineStyle::WavyDouble => "wavyDouble"@,
        }
    }

    /// The variant's name, as text.
    pub fn to_string(&self) -> (s: String)
        ensures
            s@ == self.name(),
    {
        let name = match self {
            UnderlineStyle::Single => "single",
            UnderlineStyle::Words => "words",
            UnderlineStyle::Double => "double",
            UnderlineStyle::Thick => "thick",
            UnderlineStyle::Dotted => "dotted",
            UnderlineStyle::DottedHeavy => "dottedHeavy",
            UnderlineStyle::Dash => "dash",
            UnderlineStyle::DashedHeavy => "dashedHeavy",
            UnderlineStyle::DashLong => "dashLong",
            UnderlineStyle::DashLongHeavy => "dashLongHeavy",
            UnderlineStyle::DotDash => "dotDash",
            UnderlineStyle::DashDotHeavy => "dashDotHeavy",
            UnderlineStyle::DotDotDash => "dotDotDash",
            UnderlineStyle::DashDotDotHeavy => "dashDotDotHeavy",
            UnderlineStyle::Wave => "wave",
            UnderlineStyle::WavyHeavy => "wavyHeavy",
            UnderlineStyle::WavyDouble => "wavyDouble",
        };
        String::from_str(name)
    }
}

/// What a [`Style`] is, as plain values.
pub struct StyleView {
    pub bold: bool,
    pub italic: bool,
    pub underline: Option<UnderlineStyle>,
    pub size: u8,
    pub font: Seq<char>,
    pub font_color: Seq<char>,
    pub highlight_color: Option<Seq<char>>,
}

impl StyleView {
    /// The font color, and the highlight color if there is one, are
    /// hexadecimal colors.
    pub open spec fn colors_valid(self) -> bool {
        &&& is_hex_color(self.font_color)
        &&& self.highlight_color matches Some(c) ==> is_hex_color(c)
    }

    /// The style a new run starts with: 11 pt Arial, black, nothing else set.
    pub open spec fn initial() -> StyleView {
        StyleView {
            bold: false,
            italic: false,
            underline: None,
            size: 11,
            font: "Arial"@,
            font_color: "#000000"@,
            highlight_color: None,
        }
    }

    /// The part of the tag that is there only for what is set: bold, italic,
    /// underline, highlight, in this order.
    pub open spec fn tag_options(self) -> Seq<char> {
        flag(self.bold, "bold;"@) + flag(self.italic, "italic;"@) + (match self.underline {
            Some(u) => "underline("@ + u.name() + ");"@,
            None => Seq::empty(),
        }) + (match self.highlight_color {
            Some(c) => "hc("@ + c + ");"@,
            None => Seq::empty(),
        })
    }

    /// The part of the tag that is always there: size, font, font color.
    pub open spec fn tag_base(self) -> Seq<char> {
        "pt("@ + decimal(self.size as nat) + ");"@ + self.font + ";fc("@ + self.font_color + ")"@
    }

    /// The canonical tag: what is set, then what is always there.
    pub open spec fn tag(self) -> Seq<char> {
        self.tag_options() + self.tag_base()
    }
}

/// The failure type of font_kit's font sources.
#[verifier::external_type_specification]
#[verifier::external_body]
pub struct SelectionErrorDecl(SelectionError);

/// Why a style could not be changed.
#[derive(Debug)]
pub enum StyleError {
    /// The text is no hexadecimal color.
    InvalidHexColor(String),
    /// The system knows no font family of that name.
    FontNotFound(String),
    /// The system's fonts could not be queried.
    FontQueryError(String, SelectionError),
}

/// What font_kit's `Display` writes for a `SelectionError`. Nothing is
/// claimed of the text.
#[verifier::external_body]
fn selection_error_text(error: &SelectionError) -> String {
    error.to_string()
}

/// The message of a failed font query for `name`, whose own text is `cause`.
pub fn query_failure_message(name: &str, cause: &str) -> (s: String)
    ensures
        s@ == "Failed to query system fonts for '"@ + name@ + "': "@ + cause@,
{
    let mut s = String::from_str("Failed to query system fonts for '");
    s.append(name);
    s.append("': ");
    s.append(cause);
    s
}

impl StyleError {
    /// The error as a message that names the text that was refused.
    pub fn to_string(&self) -> (s: String)
        ensures
            match self {
                StyleError::InvalidHexColor(text) => s@ == "Invalid HEX color format: '"@ + text@
                    + "'"@,
                StyleError::FontNotFound(name) => s@ == "Font not found: '"@ + name@ + "'"@,
                StyleError::FontQueryError(name, _) => exists|cause: Seq<char>|
                    s@ == "Failed to query system fonts for '"@ + name@ + "': "@ + cause,
            },
    {
        match self {
            StyleError::InvalidHexColor(text) => {
                let mut s = String::from_str("Invalid HEX color format: '");
                s.append(text.as_str());
                s.append("'");
                s
            },
            StyleError::FontNotFound(name) => {
                let mut s = String::from_str("Font not found: '");
                s.append(name.as_str());
                s.append("'");
                s
            },
            StyleError::FontQueryError(name, cause) => {
                let text = selection_error_text(cause);
                query_failure_message(name.as_str(), text.as_str())
            },
        }
    }
}

/// What the system answered when asked for a font family.
#[derive(Debug)]
pub enum FontLookup {
    Found,
    NotFound,
    Failed(SelectionError),
}

/// The visual attributes of a run of text. The colors it holds are always
/// hexadecimal colors.
#[derive(Debug, PartialEq)]
pub struct Style {
    bold: bool,
    italic: bool,
    underline: Option<UnderlineStyle>,
    size: u8,
    font: String,
    font_color: String,
    highlight_color: Option<String>,
}

impl View for Style {
    type V = StyleView;

    closed spec fn view(&self) -> StyleView {
        StyleView {
            bold: self.bold,
            italic: self.italic,
            underline: self.underline,
            size: self.size,
            font: self.font@,
            font_color: self.font_color@,
            highlight_color: match self.highlight_color {
                Some(c) => Some(c@),
                None => None,
            },
        }
    }
}

impl Clone for Style {
    fn clone(&self) -> (res: Self)
        ensures
            res == *self,
    {
        proof {
            use_type_invariant(self);
        }
        Style {
            bold: self.bold,
            italic: self.italic,
            underline: self.underline,
            size: self.size,
            font: self.font.clone(),
            font_color: self.font_color.clone(),
            highlight_color: self.highlight_color.clone(),
        }
    }
}

impl Default for Style {
    fn default() -> (s: Self)
        ensures
            s@ == StyleView::initial(),
    {
        Style::new()
    }
}

/// The text `"d"` for a digit `d`.
fn digit_str(d: u8) -> (s: &'static str)
    requires
        d < 10,
    ensures
        s@ == seq![digit_char(d as nat)],
{
    let s = if d == 0 {
        "0"
    } else if d == 1 {
        "1"
    } else if d == 2 {
        "2"
    } else if d == 3 {
        "3"
    } else if d == 4 {
        "4"
    } else if d == 5 {
        "5"
    } else if d == 6 {
        "6"
    } else if d == 7 {
        "7"
    } else if d == 8 {
        "8"
    } else {
        "9"
    };
    proof {
        reveal_strlit("0");
        reveal_strlit("1");
        reveal_strlit("2");
        reveal_strlit("3");
        reveal_strlit("4");
        reveal_strlit("5");
        reveal_strlit("6");
        reveal_strlit("7");
        reveal_strlit("8");
        reveal_strlit("9");
        assert(s@ =~= seq![digit_char(d as nat)]);
    }
    s
}

/// A point size in decimal notation.
pub fn size_text(n: u8) -> (s: String)
    ensures
        s@ == decimal(n as nat),
{
    let mut s = String::new();
    if n >= 100 {
        s.append(digit_str(n / 100));
    }
    if n >= 10 {
        s.append(digit_str((n / 10) % 10));
    }
    s.append(digit_str(n % 10));
    proof {
        reveal_with_fuel(decimal, 3);
        assert(s@ =~= decimal(n as nat));
    }
    s
}

/// Whether `s` is a hexadecimal color.
pub fn is_hex(s: &str) -> (ok: bool)
    ensures
        ok == is_hex_color(s@),
{
    let chars = to_chars(s);
    let n: usize = chars.len();
    if n != 7 && n != 9 {
        return false;
    }
    if chars[0] != '#' {
        return false;
    }
    let mut i: usize = 1;
    while i < n
        invariant
            chars@ == s@,
            n == chars@.len(),
            1 <= i <= n,
            forall|j: int| 1 <= j < i ==> is_hex_digit(#[trigger] chars@[j]),
        decreases n - i,
    {
        let c = chars[i];
        let digit = ('0' <= c && c <= '9') || ('a' <= c && c <= 'f') || ('A' <= c && c <= 'F');
        if !digit {
            return false;
        }
        i += 1;
    }
    true
}

/// Accepts a hexadecimal color and rejects any other text, naming it.
pub fn check_hex(s: &str) -> (res: Result<(), StyleError>)
    ensures
        is_hex_color(s@) ==> res is Ok,
        !is_hex_color(s@) ==> (res matches Err(StyleError::InvalidHexColor(t)) && t@ == s@),
{
    if is_hex(s) {
        Ok(())
    } else {
        Err(StyleError::InvalidHexColor(String::from_str(s)))
    }
}

/// Asks the system's font source for a family, with font_kit's
/// `SystemSource::new()` and `select_family_by_name`. Nothing is claimed of
/// the answer: it depends on the fonts installed. font_kit turns the name into
/// a C string and panics on a NUL character, which the precondition rules out.
/// It also expects every font that the system reports to have a path that is
/// valid UTF-8; that is for the machine to keep, no argument decides it.
#[verifier::external_body]
fn select_family(name: &str) -> (answer: FontLookup)
    requires
        !name@.contains('\0'),
{
    match SystemSource::new().select_family_by_name(name) {
        Ok(_) => FontLookup::Found,
        Err(SelectionError::NotFound) => FontLookup::NotFound,
        Err(e @ SelectionError::CannotAccessSource { .. }) => FontLookup::Failed(e),
    }
}

/// Whether `s` holds a NUL character.
fn has_nul(s: &str) -> (b: bool)
    ensures
        b == s@.contains('\0'),
{
    let chars = to_chars(s);
    let n: usize = chars.len();
    let mut i: usize = 0;
    while i < n
        invariant
            chars@ == s@,
            n == chars@.len(),
            i <= n,
            forall|j: int| 0 <= j < i ==> chars@[j] != '\0',
        decreases n - i,
    {
        if chars[i] == '\0' {
            return true;
        }
        i += 1;
    }
    false
}

/// Looks a font family up on this system. A name with a NUL character in it
/// names no family and is answered with `NotFound` without asking the system.
pub fn lookup_font(name: &str) -> (answer: FontLookup)
    ensures
        name@.contains('\0') ==> answer is NotFound,
{
    if has_nul(name) {
        FontLookup::NotFound
    } else {
        select_family(name)
    }
}

/// What a lookup's answer means for the font called `name`.
pub open spec fn font_verdict_spec(name: Seq<char>, answer: FontLookup, res: Result<
    (),
    StyleError,
>) -> bool {
    match answer {
        FontLookup::Found => res is Ok,
        FontLookup::NotFound => res matches Err(StyleError::FontNotFound(n)) && n@ == name,
        FontLookup::Failed(cause) => res matches Err(StyleError::FontQueryError(n, c)) && n@
            == name && c == cause,
    }
}

/// Turns a lookup's answer into the verdict on the font: found is accepted,
/// not found and a failed query are two different errors.
pub fn font_verdict(name: &str, answer: FontLookup) -> (res: Result<(), StyleError>)
    ensures
        font_verdict_spec(name@, answer, res),
{
    match answer {
        FontLookup::Found => Ok(()),
        FontLookup::NotFound => Err(StyleError::FontNotFound(String::from_str(name))),
        FontLookup::Failed(cause) => Err(
            StyleError::FontQueryError(String::from_str(name), cause),
        ),
    }
}

/// Checks that the system has a font family called `s`. Whatever the system
/// answers, an error names `s`, and it is never `InvalidHexColor`.
pub fn check_font(s: &str) -> (res: Result<(), StyleError>)
    ensures
        match res {
            Ok(_) => !s@.contains('\0'),
            Err(StyleError::FontNotFound(n)) => n@ == s@,
            Err(StyleError::FontQueryError(n, _)) => n@ == s@ && !s@.contains('\0'),
            Err(StyleError::InvalidHexColor(_)) => false,
        },
{
    let answer = lookup_font(s);
    font_verdict(s, answer)
}

impl Style {
    #[verifier::type_invariant]
    pub open spec fn inv(&self) -> bool {
        self@.colors_valid()
    }

    /// The initial style.
    pub fn new() -> (s: Self)
        ensures
            s@ == StyleView::initial(),
    {
        proof {
            reveal_strlit("#000000");
        }
        Style {
            bold: false,
            italic: false,
            underline: None,
            size: 11,
            font: String::from_str("Arial"),
            font_color: String::from_str("#000000"),
            highlight_color: None,
        }
    }

    /// The same style with bold toggled.
    pub fn switch_bold(self) -> (s: Self)
        ensures
            s@ == (StyleView { bold: !self@.bold, ..self@ }),
    {
        proof {
            use_type_invariant(&self);
        }
        let mut s = self;
        s.bold = !s.bold;
        s
    }

    /// The same style with italic toggled.
    pub fn switch_italic(self) -> (s: Self)
        ensures
            s@ == (StyleView { italic: !self@.italic, ..self@ }),
    {
        proof {
            use_type_invariant(&self);
        }
        let mut s = self;
        s.italic = !s.italic;
        s
    }

    /// The same style with the underline set, or removed by `None`.
    pub fn set_underline(self, style: Option<UnderlineStyle>) -> (s: Self)
        ensures
            s@ == (StyleView { underline: style, ..self@ }),
    {
        proof {
            use_type_invariant(&self);
        }
        let mut s = self;
        s.underline = style;
        s
    }

    /// The same style at another point size.
    pub fn change_size(self, new_size: u8) -> (s: Self)
        ensures
            s@ == (StyleView { size: new_size, ..self@ }),
    {
        proof {
            use_type_invariant(&self);
        }
        let mut s = self;
        s.size = new_size;
        s
    }

    /// The same style in another font color, which must be a hexadecimal
    /// color.
    pub fn change_font_color(self, new_color: String) -> (res: Result<Self, StyleError>)
        ensures
            is_hex_color(new_color@) ==> (res matches Ok(s) && s@ == (StyleView {
                font_color: new_color@,
                ..self@
            })),
            !is_hex_color(new_color@) ==> (res matches Err(StyleError::InvalidHexColor(t)) && t@
                == new_color@),
    {
        proof {
            use_type_invariant(&self);
        }
        match check_hex(new_color.as_str()) {
            Ok(_) => {
                let mut s = self;
                s.font_color = new_color;
                Ok(s)
            },
            Err(e) => Err(e),
        }
    }

    /// The same style with another highlight color, which must be a
    /// hexadecimal color, or with none.
    pub fn change_font_highlight(self, new_color: Option<String>) -> (res: Result<
        Self,
        StyleError,
    >)
        ensures
            match new_color {
                None => res matches Ok(s) && s@ == (StyleView { highlight_color: None, ..self@ }),
                Some(c) => if is_hex_color(c@) {
                    res matches Ok(s) && s@ == (StyleView { highlight_color: Some(c@), ..self@ })
                } else {
                    res matches Err(StyleError::InvalidHexColor(t)) && t@ == c@
                },
            },
    {
        proof {
            use_type_invariant(&self);
        }
        match &new_color {
            Some(color) => {
                match check_hex(color.as_str()) {
                    Ok(_) => {},
                    Err(e) => {
                        return Err(e);
                    },
                }
            },
            None => {},
        }
        let mut s = self;
        s.highlight_color = new_color;
        Ok(s)
    }

    /// What `change_font` gives once the system has answered.
    pub open spec fn font_changed(
        self,
        new_font: Seq<char>,
        answer: FontLookup,
        res: Result<Self, StyleError>,
    ) -> bool {
        match answer {
            FontLookup::Found => res matches Ok(s) && s@ == (StyleView { font: new_font, ..self@ }),
            FontLookup::NotFound => res matches Err(StyleError::FontNotFound(n)) && n@
                == new_font,
            FontLookup::Failed(cause) => res matches Err(StyleError::FontQueryError(n, c)) && n@
                == new_font && c == cause,
        }
    }

    /// The same style in another font, given the system's answer for that
    /// font: the font is taken only if it was found.
    pub fn change_font_with_lookup(self, new_font: String, answer: FontLookup) -> (res: Result<
        Self,
        StyleError,
    >)
        ensures
            self.font_changed(new_font@, answer, res),
    {
        proof {
            use_type_invariant(&self);
        }
        match font_verdict(new_font.as_str(), answer) {
            Ok(_) => {
                let mut s = self;
                s.font = new_font;
                Ok(s)
            },
            Err(e) => Err(e),
        }
    }

    /// The same style in another font, if the system has a family of that
    /// name. A name with a NUL character in it is answered with
    /// `FontNotFound` without asking the system. For any other name the
    /// system decides, and the outcome is the one that
    /// `change_font_with_lookup` gives for its answer: success changes the
    /// font and nothing else, and an error names the font that was asked for.
    pub fn change_font(self, new_font: String) -> (res: Result<Self, StyleError>)
        ensures
            match res {
                Ok(s) => s@ == (StyleView { font: new_font@, ..self@ }) && !new_font@.contains(
                    '\0',
                ),
                Err(StyleError::FontNotFound(n)) => n@ == new_font@,
                Err(StyleError::FontQueryError(n, _)) => n@ == new_font@ && !new_font@.contains(
                    '\0',
                ),
                Err(StyleError::InvalidHexColor(_)) => false,
            },
            exists|answer: FontLookup| self.font_changed(new_font@, answer, res),
            new_font@.contains('\0') ==> self.font_changed(new_font@, FontLookup::NotFound, res),
    {
        let answer = lookup_font(new_font.as_str());
        let res = self.change_font_with_lookup(new_font, answer);
        assert(self.font_changed(new_font@, answer, res));
        res
    }

    pub fn bold(&self) -> (b: bool)
        ensures
            b == self@.bold,
    {
        self.bold
    }

    pub fn italic(&self) -> (b: bool)
        ensures
            b == self@.italic,
    {
        self.italic
    }

    pub fn underline(&self) -> (u: Option<&UnderlineStyle>)
        ensures
            match u {
                Some(v) => self@.underline == Some(*v),
                None => self@.underline is None,
            },
    {
        self.underline.as_ref()
    }

    pub fn size(&self) -> (n: u8)
        ensures
            n == self@.size,
    {
        self.size
    }

    pub fn font(&self) -> (f: &str)
        ensures
            f@ == self@.font,
    {
        self.font.as_str()
    }

    /// The font color: a hexadecimal color.
    pub fn font_color(&self) -> (c: &str)
        ensures
            c@ == self@.font_color,
            is_hex_color(c@),
    {
        proof {
            use_type_invariant(self);
        }
        self.font_color.as_str()
    }

    /// The highlight color, if one is set: a hexadecimal color.
    pub fn highlight_color(&self) -> (c: Option<&str>)
        ensures
            match c {
                Some(h) => self@.highlight_color == Some(h@) && is_hex_color(h@),
                None => self@.highlight_color is None,
            },
    {
        proof {
            use_type_invariant(self);
        }
        match &self.highlight_color {
            Some(h) => Some(h.as_str()),
            None => None,
        }
    }

    /// The part of the tag for what is set.
    fn options_text(&self) -> (s: String)
        ensures
            s@ == self@.tag_options(),
    {
        let mut out = String::new();
        if self.bold {
            out.append("bold;");
        }
        if self.italic {
            out.append("italic;");
        }
        let ghost flags = out@;
        assert(flags =~= flag(self@.bold, "bold;"@) + flag(self@.italic, "italic;"@));
        match &self.underline {
            Some(u) => {
                let name = u.to_string();
                out.append("underline(");
                out.append(name.as_str());
                out.append(");");
                assert(out@ =~= flags + ("underline("@ + u.name() + ");"@));
            },
            None => {
                assert(out@ =~= flags + Seq::<char>::empty());
            },
        }
        let ghost lined = out@;
        match &self.highlight_color {
            Some(c) => {
                out.append("hc(");
                out.append(c.as_str());
                out.append(");");
                assert(out@ =~= lined + ("hc("@ + c@ + ");"@));
            },
            None => {
                assert(out@ =~= lined + Seq::<char>::empty());
            },
        }
        out
    }

    /// The part of the tag that is always there.
    fn base_text(&self) -> (s: String)
        ensures
            s@ == self@.tag_base(),
    {
        let size = size_text(self.size);
        let mut out = String::from_str("pt(");
        out.append(size.as_str());
        out.append(");");
        out.append(self.font.as_str());
        out.append(";fc(");
        out.append(self.font_color.as_str());
        out.append(")");
        out
    }

    /// The canonical tag of this style.
    pub fn to_string(&self) -> (s: String)
        ensures
            s@ == self@.tag(),
    {
        let mut out = self.options_text();
        let base = self.base_text();
        out.append(base.as_str());
        out
    }
}

} // verus!
