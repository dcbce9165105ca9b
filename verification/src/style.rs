//! Styled text for the terminal.

use cursive_core::theme;
use cursive_core::utils::markup::StyledString;
use vstd::prelude::*;

verus! {

/// A string with an attribute for each span of it.
#[verifier::external_type_specification]
#[verifier::external_body]
#[verifier::reject_recursive_types(T)]
pub struct ExSpannedString<T>(cursive_core::utils::span::SpannedString<T>);

/// How a span of text is styled.
#[verifier::external_type_specification]
#[verifier::external_body]
pub struct ExStyle(cursive_core::theme::Style);

/// One of the terminal's base colors.
#[derive(Clone, Copy, Debug, PartialEq, Eq, Structural)]
pub enum BaseColor {
    Black,
    Red,
    Green,
    Yellow,
    Blue,
    Magenta,
    White,
}

/// Which version of a base color.
#[derive(Clone, Copy, Debug, PartialEq, Eq, Structural)]
pub enum Shade {
    Dark,
    Light,
}

/// The color of a text.
#[derive(Clone, Copy, Debug, PartialEq, Eq, Structural)]
pub struct TextColor {
    pub base: BaseColor,
    pub shade: Shade,
}

/// A piece of text in one color; `None` for text that is not styled.
pub struct Span {
    pub content: Seq<char>,
    pub color: Option<TextColor>,
}

/// The spans of a styled string, in the order in which they are displayed.
pub uninterp spec fn styled_spans(text: StyledString) -> Seq<Span>;

/// `SpannedString::new` gives a string without spans.
#[verifier::external_body]
fn styled_string() -> (text: StyledString)
    ensures
        styled_spans(text) == Seq::<Span>::empty(),
{
    StyledString::new()
}

/// `StyledString::append_plain` adds one span at the end, with the given content
/// and no style, and keeps the spans before it.
#[verifier::external_body]
fn append_unstyled(text: &mut StyledString, content: &str)
    ensures
        styled_spans(*final(text)) == styled_spans(*old(text)).push(
            (Span { content: content@, color: None }),
        ),
{
    text.append_plain(content)
}

/// `StyledString::append_styled` adds one span at the end, with the given content
/// and a style that sets the text color and nothing else, and keeps the spans
/// before it. `BaseColor::light` and `BaseColor::dark` give the two versions of a
/// base color.
#[verifier::external_body]
fn append_colored(text: &mut StyledString, content: &str, color: TextColor)
    ensures
        styled_spans(*final(text)) == styled_spans(*old(text)).push(
            (Span { content: content@, color: Some(color) }),
        ),
{
    let base = match color.base {
        BaseColor::Black => theme::BaseColor::Black,
        BaseColor::Red => theme::BaseColor::Red,
        BaseColor::Green => theme::BaseColor::Green,
        BaseColor::Yellow => theme::BaseColor::Yellow,
        BaseColor::Blue => theme::BaseColor::Blue,
        BaseColor::Magenta => theme::BaseColor::Magenta,
        BaseColor::White => theme::BaseColor::White,
    };
    match color.shade {
        Shade::Dark => text.append_styled(content, base.dark()),
        Shade::Light => text.append_styled(content, base.light()),
    }
}

/// The light version of a base color.
pub open spec fn light(base: BaseColor) -> TextColor {
    TextColor { base, shade: Shade::Light }
}

/// The dark version of a base color.
pub open spec fn dark(base: BaseColor) -> TextColor {
    TextColor { base, shade: Shade::Dark }
}

/// Text that is not styled.
pub open spec fn plain(content: Seq<char>) -> Span {
    Span { content, color: None }
}

/// Text in a color.
pub open spec fn colored(content: Seq<char>, color: TextColor) -> Span {
    Span { content, color: Some(color) }
}

/// A space and a word in a color.
pub open spec fn word(content: Seq<char>, color: TextColor) -> Seq<Span> {
    seq![plain(" "@), colored(content, color)]
}

/// Builds a styled string from its start to its end.
pub struct StyledStringBuilder {
    text: StyledString,
}

impl View for StyledStringBuilder {
    type V = Seq<Span>;

    closed spec fn view(&self) -> Seq<Span> {
        styled_spans(self.text)
    }
}

impl StyledStringBuilder {
    /// A builder of an empty string.
    pub fn new() -> (builder: StyledStringBuilder)
        ensures
            builder@ == Seq::<Span>::empty(),
    {
        StyledStringBuilder { text: styled_string() }
    }

    /// Append text that is not styled.
    pub fn append_plain(&mut self, content: &str)
        ensures
            final(self)@ == old(self)@.push(plain(content@)),
    {
        append_unstyled(&mut self.text, content);
    }

    /// Append text in a color.
    pub fn append_styled(&mut self, content: &str, color: TextColor)
        ensures
            final(self)@ == old(self)@.push(colored(content@, color)),
    {
        append_colored(&mut self.text, content, color);
    }

    /// Append a space and a word in the light version of a color.
    pub fn append_light_word(&mut self, content: &str, base: BaseColor)
        ensures
            final(self)@ == old(self)@ + word(content@, light(base)),
    {
        self.append_plain(" ");
        self.append_styled(content, TextColor { base, shade: Shade::Light });
        assert(self@ =~= old(self)@ + word(content@, light(base)));
    }

    /// Append a space and a word in the dark version of a color.
    pub fn append_dark_word(&mut self, content: &str, base: BaseColor)
        ensures
            final(self)@ == old(self)@ + word(content@, dark(base)),
    {
        self.append_plain(" ");
        self.append_styled(content, TextColor { base, shade: Shade::Dark });
        assert(self@ =~= old(self)@ + word(content@, dark(base)));
    }

    /// The string that was built.
    pub fn build(self) -> (text: StyledString)
        ensures
            styled_spans(text) == self@,
    {
        self.text
    }
}

} // verus!
