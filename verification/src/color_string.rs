//! Terminal text styling: a builder that collects a foreground and a
//! background colour for a piece of text and renders the whole as one
//! ANSI "Select Graphic Rendition" sequence, `ESC[<bg>;<fg>m<text>ESC[0m`.

use vstd::prelude::*;
use vstd::string::*;

verus! {

/// The style code of a red foreground.
pub const FG_RED: &'static str = "31";

/// The style code of a yellow background.
pub const BG_YELLOW: &'static str = "43";

/// The sequence that cancels all styling for the output that follows.
pub const RESET: &'static str = "\x1B[0m";

/// The characters of [`FG_RED`].
pub open spec fn red_code() -> Seq<char> {
    seq!['3', '1']
}

/// The characters of [`BG_YELLOW`].
pub open spec fn yellow_code() -> Seq<char> {
    seq!['4', '3']
}

/// The characters that open an escape prefix: `ESC` and `[`.
pub open spec fn escape_open() -> Seq<char> {
    seq!['\x1B', '[']
}

/// The characters of [`RESET`].
pub open spec fn reset_sequence() -> Seq<char> {
    seq!['\x1B', '[', '0', 'm']
}

/// The mathematical value of a [`ColorString`]: the text and the style codes
/// chosen for it so far. A code that has not been chosen is `None`.
pub struct StyledText {
    pub input: Seq<char>,
    pub foreground: Option<Seq<char>>,
    pub background: Option<Seq<char>>,
}

impl StyledText {
    /// Text on which no style has been chosen yet.
    pub open spec fn plain(text: Seq<char>) -> StyledText {
        StyledText { input: text, foreground: None, background: None }
    }

    /// The same value with the foreground code replaced by `code`.
    pub open spec fn with_foreground(self, code: Seq<char>) -> StyledText {
        StyledText { foreground: Some(code), ..self }
    }

    /// The same value with the background code replaced by `code`.
    pub open spec fn with_background(self, code: Seq<char>) -> StyledText {
        StyledText { background: Some(code), ..self }
    }

    /// The codes that are chosen, the background first, with a `;` between
    /// the two where both are chosen.
    pub open spec fn codes(self) -> Seq<char> {
        match (self.background, self.foreground) {
            (Some(background), Some(foreground)) => background + seq![';'] + foreground,
            (Some(background), None) => background,
            (None, Some(foreground)) => foreground,
            (None, None) => Seq::<char>::empty(),
        }
    }

    /// The escape prefix: `ESC[`, the codes, and `m`. With no code chosen it
    /// is `ESC[m`.
    pub open spec fn style(self) -> Seq<char> {
        escape_open() + self.codes() + seq!['m']
    }

    /// What is written to the terminal: the escape prefix, the text as it
    /// is, and the reset sequence.
    pub open spec fn rendered(self) -> Seq<char> {
        self.style() + self.input + reset_sequence()
    }
}

/// A piece of text together with the colours chosen for it.
///
/// A colour that has not been chosen is held as the empty string.
pub struct ColorString {
    input: String,
    bgcolor: String,
    fgcolor: String,
}

/// The code held in `field`, where the empty string stands for none.
pub open spec fn chosen_code(field: Seq<char>) -> Option<Seq<char>> {
    if field.len() == 0 {
        None
    } else {
        Some(field)
    }
}

impl View for ColorString {
    type V = StyledText;

    closed spec fn view(&self) -> StyledText {
        StyledText {
            input: self.input@,
            foreground: chosen_code(self.fgcolor@),
            background: chosen_code(self.bgcolor@),
        }
    }
}

impl Default for ColorString {
    /// The empty text with no colour chosen.
    fn default() -> (r: ColorString)
        ensures
            r@ == StyledText::plain(Seq::<char>::empty()),
    {
        ColorString { input: String::new(), bgcolor: String::new(), fgcolor: String::new() }
    }
}

/// What can be given a colour: plain text, and text that has some colour
/// already. Each operation sets the one code it is about and leaves the
/// text and the other code as they are, so the operations can be chained in
/// any order.
pub trait Colorize: Sized {
    /// The styled text that the value stands for before an operation.
    spec fn styled(&self) -> StyledText;

    /// Gives the text a red foreground.
    fn red(self) -> (r: ColorString)
        ensures
            r@ == self.styled().with_foreground(red_code()),
    ;

    /// Gives the text a yellow background.
    fn on_yellow(self) -> (r: ColorString)
        ensures
            r@ == self.styled().with_background(yellow_code()),
    ;
}

impl Colorize for ColorString {
    open spec fn styled(&self) -> StyledText {
        self@
    }

    fn red(self) -> (r: ColorString) {
        proof {
            reveal_strlit("31");
            assert(FG_RED@ =~= red_code());
        }
        ColorString { fgcolor: String::from_str(FG_RED), ..self }
    }

    fn on_yellow(self) -> (r: ColorString) {
        proof {
            reveal_strlit("43");
            assert(BG_YELLOW@ =~= yellow_code());
        }
        ColorString { bgcolor: String::from_str(BG_YELLOW), ..self }
    }
}

impl<'a> Colorize for &'a str {
    open spec fn styled(&self) -> StyledText {
        StyledText::plain(self@)
    }

    fn red(self) -> (r: ColorString) {
        proof {
            reveal_strlit("31");
            assert(FG_RED@ =~= red_code());
        }
        ColorString {
            input: String::from_str(self),
            fgcolor: String::from_str(FG_RED),
            ..ColorString::default()
        }
    }

    fn on_yellow(self) -> (r: ColorString) {
        proof {
            reveal_strlit("43");
            assert(BG_YELLOW@ =~= yellow_code());
        }
        ColorString {
            input: String::from_str(self),
            bgcolor: String::from_str(BG_YELLOW),
            ..ColorString::default()
        }
    }
}

impl ColorString {
    /// The escape prefix that selects the colours chosen so far.
    pub fn compute_style(&self) -> (rs: String)
        ensures
            rs@ == self@.style(),
    {
        let mut rs = String::from_str("\x1B[");
        proof {
            reveal_strlit("\x1B[");
            reveal_strlit(";");
            reveal_strlit("m");
        }
        let foreground = !self.fgcolor.as_str().is_empty();
        if !self.bgcolor.as_str().is_empty() {
            rs.append(self.bgcolor.as_str());
            if foreground {
                rs.append(";");
            }
        }
        if foreground {
            rs.append(self.fgcolor.as_str());
        }
        rs.append("m");
        rs
    }

    /// The text wrapped in its escape prefix and the reset sequence. The
    /// value itself is left as it is.
    pub fn render(&self) -> (out: String)
        ensures
            out@ == self@.rendered(),
    {
        let mut out = self.compute_style();
        out.append(self.input.as_str());
        out.append(RESET);
        proof {
            reveal_strlit("\x1B[0m");
        }
        out
    }
}

/// Text with a red foreground renders as `ESC[31m`, the text and `ESC[0m`.
pub proof fn lemma_red_rendered(text: Seq<char>)
    ensures
        StyledText::plain(text).with_foreground(red_code()).rendered() == seq![
            '\x1B',
            '[',
            '3',
            '1',
            'm',
        ] + text + seq!['\x1B', '[', '0', 'm'],
{
}

/// Text with a yellow background renders as `ESC[43m`, the text and
/// `ESC[0m`.
pub proof fn lemma_on_yellow_rendered(text: Seq<char>)
    ensures
        StyledText::plain(text).with_background(yellow_code()).rendered() == seq![
            '\x1B',
            '[',
            '4',
            '3',
            'm',
        ] + text + seq!['\x1B', '[', '0', 'm'],
{
}

/// The order in which the two colours are chosen makes no difference: either
/// way the text renders as `ESC[43;31m`, the text and `ESC[0m`.
pub proof fn lemma_order_independent(text: Seq<char>)
    ensures
        StyledText::plain(text).with_background(yellow_code()).with_foreground(
            red_code(),
        ).rendered() == StyledText::plain(text).with_foreground(red_code()).with_background(
            yellow_code(),
        ).rendered(),
        StyledText::plain(text).with_foreground(red_code()).with_background(
            yellow_code(),
        ).rendered() == seq!['\x1B', '[', '4', '3', ';', '3', '1', 'm'] + text + seq![
            '\x1B',
            '[',
            '0',
            'm',
        ],
{
}

/// Choosing a foreground and a background commute on any value, whatever
/// the codes.
pub proof fn lemma_foreground_background_commute(
    styled: StyledText,
    foreground: Seq<char>,
    background: Seq<char>,
)
    ensures
        styled.with_foreground(foreground).with_background(background) == styled.with_background(
            background,
        ).with_foreground(foreground),
{
}

/// Choosing the same colour twice in a row is the same as choosing it once:
/// the value is the same, and so is what it renders as.
pub proof fn lemma_idempotent(styled: StyledText, code: Seq<char>)
    ensures
        styled.with_foreground(code).with_foreground(code) == styled.with_foreground(code),
        styled.with_background(code).with_background(code) == styled.with_background(code),
        styled.with_foreground(code).with_foreground(code).rendered() == styled.with_foreground(
            code,
        ).rendered(),
        styled.with_background(code).with_background(code).rendered() == styled.with_background(
            code,
        ).rendered(),
{
}

/// An operation overwrites the one code it is about: the last choice wins,
/// and the text and the other code stay.
pub proof fn lemma_last_choice_wins(styled: StyledText, first: Seq<char>, second: Seq<char>)
    ensures
        styled.with_foreground(first).with_foreground(second) == styled.with_foreground(second),
        styled.with_background(first).with_background(second) == styled.with_background(second),
        styled.with_foreground(first).input == styled.input,
        styled.with_foreground(first).background == styled.background,
        styled.with_background(first).input == styled.input,
        styled.with_background(first).foreground == styled.foreground,
{
}

} // verus!
