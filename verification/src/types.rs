use vstd::prelude::*;

verus! {

/// Whether the session is taking ordinary key commands or editing a
/// textual command in the command bar.
#[derive(Debug, PartialEq, Eq, Structural, Clone, Copy)]
pub enum Mode {
    Normal,
    Command,
}

/// Whether a navigable target points at another page or at a raster image.
#[derive(Debug, PartialEq, Eq, Structural, Clone, Copy)]
pub enum LinkType {
    Web,
    Image,
}

/// The palette the engine styles runs with; the drawing layer maps these
/// onto whatever the terminal offers.  `Reset` stands for the terminal's
/// default.
#[derive(Debug, PartialEq, Eq, Structural, Clone, Copy)]
pub enum Color {
    Reset,
    Black,
    Blue,
    Cyan,
    DarkGray,
    Green,
    Magenta,
    White,
    Yellow,
}

/// Visual attributes of one text run.
#[derive(Debug, PartialEq, Eq, Structural, Clone, Copy)]
pub struct TextStyle {
    pub fg: Color,
    pub bg: Color,
    pub bold: bool,
    pub italic: bool,
    pub underline: bool,
}

/// One styled text run.  The `role` tag records whether the run is the
/// visible text of a navigable target; the highlight overlay goes by this
/// tag alone, never by the run's colors.
#[derive(Debug, Clone)]
pub struct Span {
    pub text: String,
    pub style: TextStyle,
    pub role: Option<LinkType>,
}

/// The mathematical value of a `Span`: its text as a character sequence,
/// with the style and role unchanged.
pub struct SpanView {
    pub text: Seq<char>,
    pub style: TextStyle,
    pub role: Option<LinkType>,
}

impl View for Span {
    type V = SpanView;

    open spec fn view(&self) -> SpanView {
        SpanView { text: self.text@, style: self.style, role: self.role }
    }
}

/// One visual row of content: an ordered sequence of styled runs.
#[derive(Debug, Clone)]
pub struct StyledLine {
    pub spans: Vec<Span>,
}

impl View for StyledLine {
    type V = Seq<SpanView>;

    open spec fn view(&self) -> Seq<SpanView> {
        self.spans@.map_values(|s: Span| s@)
    }
}

/// A navigable target discovered during conversion, in document order.
#[derive(Debug, Clone)]
pub struct LinkData {
    pub url: String,
    pub link_type: LinkType,
}

/// The mathematical value of a `LinkData`.
pub struct LinkView {
    pub url: Seq<char>,
    pub kind: LinkType,
}

impl View for LinkData {
    type V = LinkView;

    open spec fn view(&self) -> LinkView {
        LinkView { url: self.url@, kind: self.link_type }
    }
}

/// A failure of the conversion pipeline.  A transport failure never reaches
/// the engine: fetching is the embedding program's business.
#[derive(Debug, PartialEq, Eq, Structural, Clone, Copy)]
pub enum EngineError {
    /// The bytes are not a decodable raster image.
    Decode,
    /// The markup could not be parsed at all.
    Parse,
}

impl EngineError {
    /// A short human-readable description, for the status bar.
    pub fn message(&self) -> (r: &'static str)
        ensures
            *self is Decode ==> r@ == "cannot decode image"@,
            *self is Parse ==> r@ == "cannot parse page"@,
    {
        match self {
            EngineError::Decode => "cannot decode image",
            EngineError::Parse => "cannot parse page",
        }
    }
}

/// The whole-document view of a line list.
pub open spec fn lines_view(lines: Seq<StyledLine>) -> Seq<Seq<SpanView>> {
    lines.map_values(|l: StyledLine| l@)
}

/// The whole-list view of a link list.
pub open spec fn links_view(links: Seq<LinkData>) -> Seq<LinkView> {
    links.map_values(|l: LinkData| l@)
}

/// Style of ordinary prose, optionally emphasised.
pub open spec fn plain_style(bold: bool) -> TextStyle {
    TextStyle { fg: Color::Reset, bg: Color::Reset, bold: bold, italic: false, underline: false }
}

/// Style of the small `[k]` index label put in front of each link.
pub open spec fn label_style() -> TextStyle {
    TextStyle { fg: Color::DarkGray, bg: Color::Reset, bold: false, italic: false, underline: false }
}

/// Style of a link's visible text: web and image targets are told apart
/// by color and emphasis.
pub open spec fn link_style(kind: LinkType) -> TextStyle {
    match kind {
        LinkType::Web => TextStyle {
            fg: Color::Blue,
            bg: Color::Reset,
            bold: false,
            italic: false,
            underline: true,
        },
        LinkType::Image => TextStyle {
            fg: Color::Magenta,
            bg: Color::Reset,
            bold: false,
            italic: true,
            underline: false,
        },
    }
}

/// The highlighted variant of a style: inverted onto yellow, bold, with the
/// remaining attributes kept.
pub open spec fn highlight_of(s: TextStyle) -> TextStyle {
    TextStyle { fg: Color::Black, bg: Color::Yellow, bold: true, italic: s.italic, underline: s.underline }
}

/// Exec constructor matching `plain_style`.
pub fn make_plain_style(bold: bool) -> (r: TextStyle)
    ensures
        r == plain_style(bold),
{
    TextStyle { fg: Color::Reset, bg: Color::Reset, bold: bold, italic: false, underline: false }
}

/// Exec constructor matching `label_style`.
pub fn make_label_style() -> (r: TextStyle)
    ensures
        r == label_style(),
{
    TextStyle { fg: Color::DarkGray, bg: Color::Reset, bold: false, italic: false, underline: false }
}

/// Exec constructor matching `link_style`.
pub fn make_link_style(kind: LinkType) -> (r: TextStyle)
    ensures
        r == link_style(kind),
{
    match kind {
        LinkType::Web => TextStyle {
            fg: Color::Blue,
            bg: Color::Reset,
            bold: false,
            italic: false,
            underline: true,
        },
        LinkType::Image => TextStyle {
            fg: Color::Magenta,
            bg: Color::Reset,
            bold: false,
            italic: true,
            underline: false,
        },
    }
}

/// Exec constructor matching `highlight_of`.
pub fn make_highlight(s: TextStyle) -> (r: TextStyle)
    ensures
        r == highlight_of(s),
{
    TextStyle { fg: Color::Black, bg: Color::Yellow, bold: true, italic: s.italic, underline: s.underline }
}

} // verus!
