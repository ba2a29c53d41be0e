//! The look: colours, themes and small signs.
//!
//! Colours are given by their parts: terminals repaint the named ones by themes
//! of their own, and shades would drift from machine to machine.
use crate::text::{all_ascii, ascii_lower, chars_of, lower, same, to_lower, trim, trimmed};
use vstd::prelude::*;
use vstd::string::*;

verus! {

/// A colour.
#[derive(Debug, PartialEq, Eq)]
pub enum Color {
    Rgb(u8, u8, u8),
    /// A colour that the terminal knows by name or number.
    Named(String),
}

pub enum ColorView {
    Rgb(u8, u8, u8),
    Named(Seq<char>),
}

impl DeepView for Color {
    type V = ColorView;

    open spec fn deep_view(&self) -> ColorView {
        match self {
            Color::Rgb(r, g, b) => ColorView::Rgb(*r, *g, *b),
            Color::Named(name) => ColorView::Named(name@),
        }
    }
}

impl Clone for Color {
    fn clone(&self) -> (r: Self)
        ensures
            r.deep_view() == self.deep_view(),
    {
        match self {
            Color::Rgb(r, g, b) => Color::Rgb(*r, *g, *b),
            Color::Named(name) => Color::Named(name.clone()),
        }
    }
}

/// The theme: the three accents by which everything else is painted.
#[derive(Debug, Clone, Copy, PartialEq, Eq, Structural, Default)]
pub enum Theme {
    /// Violet into pink.
    #[default]
    Charple,
    /// Pink into amber.
    Dolly,
    /// Turquoise into green.
    Mint,
    /// Amber into red.
    Ember,
}

impl Theme {
    pub const ALL: [Theme; 4] = [Theme::Charple, Theme::Dolly, Theme::Mint, Theme::Ember];

    pub open spec fn name_text(self) -> Seq<char> {
        match self {
            Theme::Charple => "charple"@,
            Theme::Dolly => "dolly"@,
            Theme::Mint => "mint"@,
            Theme::Ember => "ember"@,
        }
    }

    /// The name in the settings.
    pub fn name(self) -> (r: &'static str)
        ensures
            r@ == self.name_text(),
    {
        match self {
            Theme::Charple => "charple",
            Theme::Dolly => "dolly",
            Theme::Mint => "mint",
            Theme::Ember => "ember",
        }
    }

    pub open spec fn title_text(self) -> Seq<char> {
        match self {
            Theme::Charple => "сирень"@,
            Theme::Dolly => "долли"@,
            Theme::Mint => "мята"@,
            Theme::Ember => "уголь"@,
        }
    }

    /// The name on the screen.
    pub fn title(self) -> (r: &'static str)
        ensures
            r@ == self.title_text(),
    {
        match self {
            Theme::Charple => "сирень",
            Theme::Dolly => "долли",
            Theme::Mint => "мята",
            Theme::Ember => "уголь",
        }
    }

    /// The theme of a name, letter case and white space around it aside.
    pub open spec fn parsed(value: Seq<char>) -> Option<Theme> {
        let name = lower(trimmed(value));
        if name == "charple"@ {
            Some(Theme::Charple)
        } else if name == "dolly"@ {
            Some(Theme::Dolly)
        } else if name == "mint"@ {
            Some(Theme::Mint)
        } else if name == "ember"@ {
            Some(Theme::Ember)
        } else {
            None
        }
    }

    /// The theme of a name, letter case and white space around it aside. The name
    /// of a theme is read back as that theme.
    pub fn parse(value: &str) -> (r: Option<Self>)
        ensures
            r == Theme::parsed(value@),
            forall|t: Theme| value@ == #[trigger] t.name_text() ==> r == Some(t),
    {
        let trimmed_value = trim(value);
        let name = to_lower(trimmed_value.as_str());
        proof {
            reveal_strlit("charple");
            reveal_strlit("dolly");
            reveal_strlit("mint");
            reveal_strlit("ember");
            assert forall|t: Theme| value@ == #[trigger] t.name_text() implies Theme::parsed(value@)
                == Some(t) by {
                let s = value@;
                assert(trimmed(s) == s);
                assert(all_ascii(s));
                assert(s.map_values(|c: char| ascii_lower(c)) =~= s);
                assert("dolly"@[0] == 'd');
                assert("mint"@[0] == 'm');
                assert("ember"@[0] == 'e');
                assert("charple"@[0] == 'c');
            }
        }
        if same(name.as_str(), "charple") {
            Some(Theme::Charple)
        } else if same(name.as_str(), "dolly") {
            Some(Theme::Dolly)
        } else if same(name.as_str(), "mint") {
            Some(Theme::Mint)
        } else if same(name.as_str(), "ember") {
            Some(Theme::Ember)
        } else {
            None
        }
    }

    /// The next theme of the circle, or the one before.
    pub open spec fn shifted(self, back: bool) -> Theme {
        match (self, back) {
            (Theme::Charple, false) => Theme::Dolly,
            (Theme::Dolly, false) => Theme::Mint,
            (Theme::Mint, false) => Theme::Ember,
            (Theme::Ember, false) => Theme::Charple,
            (Theme::Charple, true) => Theme::Ember,
            (Theme::Dolly, true) => Theme::Charple,
            (Theme::Mint, true) => Theme::Dolly,
            (Theme::Ember, true) => Theme::Mint,
        }
    }

    /// The next theme of the circle, or the one before.
    pub fn shift(self, back: bool) -> (r: Self)
        ensures
            r == self.shifted(back),
    {
        match (self, back) {
            (Theme::Charple, false) => Theme::Dolly,
            (Theme::Dolly, false) => Theme::Mint,
            (Theme::Mint, false) => Theme::Ember,
            (Theme::Ember, false) => Theme::Charple,
            (Theme::Charple, true) => Theme::Ember,
            (Theme::Dolly, true) => Theme::Charple,
            (Theme::Mint, true) => Theme::Dolly,
            (Theme::Ember, true) => Theme::Mint,
        }
    }

    pub open spec fn primary_color(self) -> ColorView {
        match self {
            Theme::Charple => ColorView::Rgb(122, 92, 255),
            Theme::Dolly => ColorView::Rgb(255, 106, 193),
            Theme::Mint => ColorView::Rgb(0, 202, 190),
            Theme::Ember => ColorView::Rgb(255, 148, 61),
        }
    }

    /// The main colour: frames in focus, the active tab, one's own messages.
    pub fn primary(self) -> (r: Color)
        ensures
            r.deep_view() == self.primary_color(),
    {
        match self {
            Theme::Charple => Color::Rgb(122, 92, 255),
            Theme::Dolly => Color::Rgb(255, 106, 193),
            Theme::Mint => Color::Rgb(0, 202, 190),
            Theme::Ember => Color::Rgb(255, 148, 61),
        }
    }

    pub open spec fn secondary_color(self) -> ColorView {
        match self {
            Theme::Charple => ColorView::Rgb(255, 122, 190),
            Theme::Dolly => ColorView::Rgb(255, 178, 92),
            Theme::Mint => ColorView::Rgb(126, 226, 168),
            Theme::Ember => ColorView::Rgb(255, 92, 122),
        }
    }

    /// The other end of a gradient.
    pub fn secondary(self) -> (r: Color)
        ensures
            r.deep_view() == self.secondary_color(),
    {
        match self {
            Theme::Charple => Color::Rgb(255, 122, 190),
            Theme::Dolly => Color::Rgb(255, 178, 92),
            Theme::Mint => Color::Rgb(126, 226, 168),
            Theme::Ember => Color::Rgb(255, 92, 122),
        }
    }

    pub open spec fn glow_color(self) -> ColorView {
        match self {
            Theme::Charple => ColorView::Rgb(214, 200, 255),
            Theme::Dolly => ColorView::Rgb(255, 214, 235),
            Theme::Mint => ColorView::Rgb(198, 255, 238),
            Theme::Ember => ColorView::Rgb(255, 226, 178),
        }
    }

    /// The lightest shade: flashes and the running highlight.
    pub fn glow(self) -> (r: Color)
        ensures
            r.deep_view() == self.glow_color(),
    {
        match self {
            Theme::Charple => Color::Rgb(214, 200, 255),
            Theme::Dolly => Color::Rgb(255, 214, 235),
            Theme::Mint => Color::Rgb(198, 255, 238),
            Theme::Ember => Color::Rgb(255, 226, 178),
        }
    }
}

/// One step forward and one back, or the other way round, leads nowhere, and four
/// steps in one direction lead round the circle.
pub proof fn law_themes_go_round(theme: Theme, back: bool)
    ensures
        theme.shifted(back).shifted(!back) == theme,
        theme.shifted(back).shifted(back).shifted(back).shifted(back) == theme,
        theme.shifted(back) != theme,
{
}

/// The colours of names: the same ones as in the browser, so that a person looks
/// the same there and here.
pub open spec fn nick_palette(at: int) -> ColorView {
    if at == 0 {
        ColorView::Rgb(0, 211, 242)
    } else if at == 1 {
        ColorView::Rgb(18, 199, 143)
    } else if at == 2 {
        ColorView::Rgb(255, 194, 75)
    } else if at == 3 {
        ColorView::Rgb(180, 140, 255)
    } else if at == 4 {
        ColorView::Rgb(255, 122, 190)
    } else if at == 5 {
        ColorView::Rgb(107, 208, 255)
    } else if at == 6 {
        ColorView::Rgb(255, 141, 106)
    } else {
        ColorView::Rgb(126, 226, 168)
    }
}

/// How many colours of names there are.
pub const NICKS: usize = 8;

/// The colour of names at a position of the palette.
pub fn palette(at: usize) -> (r: Color)
    ensures
        r.deep_view() == nick_palette(at as int),
{
    if at == 0 {
        Color::Rgb(0, 211, 242)
    } else if at == 1 {
        Color::Rgb(18, 199, 143)
    } else if at == 2 {
        Color::Rgb(255, 194, 75)
    } else if at == 3 {
        Color::Rgb(180, 140, 255)
    } else if at == 4 {
        Color::Rgb(255, 122, 190)
    } else if at == 5 {
        Color::Rgb(107, 208, 255)
    } else if at == 6 {
        Color::Rgb(255, 141, 106)
    } else {
        Color::Rgb(126, 226, 168)
    }
}

/// The frames of the spinner: dots turn more smoothly than a stick.
pub open spec fn spinner_frame(at: int) -> Seq<char> {
    if at == 0 {
        "⠋"@
    } else if at == 1 {
        "⠙"@
    } else if at == 2 {
        "⠹"@
    } else if at == 3 {
        "⠸"@
    } else if at == 4 {
        "⠼"@
    } else if at == 5 {
        "⠴"@
    } else if at == 6 {
        "⠦"@
    } else if at == 7 {
        "⠧"@
    } else if at == 8 {
        "⠇"@
    } else {
        "⠏"@
    }
}

/// The frame of the spinner at a tick: every frame stands for two ticks.
pub fn spinner(tick: u64) -> (r: &'static str)
    ensures
        r@ == spinner_frame((tick / 2) as int % 10),
{
    let at: u64 = (tick / 2) % 10;
    if at == 0 {
        "⠋"
    } else if at == 1 {
        "⠙"
    } else if at == 2 {
        "⠹"
    } else if at == 3 {
        "⠸"
    } else if at == 4 {
        "⠼"
    } else if at == 5 {
        "⠴"
    } else if at == 6 {
        "⠦"
    } else if at == 7 {
        "⠧"
    } else if at == 8 {
        "⠇"
    } else {
        "⠏"
    }
}

/// The steps of a bar of sound: eight heights, and silence drawn as the lowest.
pub open spec fn step_signs() -> Seq<char> {
    "▁▁▂▃▄▅▆▇█"@
}

/// The bar of the given height; what is higher than the highest is drawn as it.
pub fn step_sign(level: u8) -> (r: char)
    ensures
        r == step_signs()[if level < 8 {
            level as int
        } else {
            8
        }],
{
    let signs = chars_of("▁▁▂▃▄▅▆▇█");
    proof {
        reveal_strlit("▁▁▂▃▄▅▆▇█");
    }
    let at: usize = if level < 8 {
        level as usize
    } else {
        8
    };
    signs[at]
}

/// What `Color::from_str` of the `ratatui` crate reads from a word: a colour by
/// its parts, or any other one by the name that the crate writes for it.
pub uninterp spec fn parsed_color(value: Seq<char>) -> Option<ColorView>;

/// The number that a hexadecimal digit stands for, in either letter case.
pub open spec fn hex_value(c: char) -> Option<int> {
    if '0' <= c <= '9' {
        Some(c as int - 48)
    } else if 'a' <= c <= 'f' {
        Some(c as int - 87)
    } else if 'A' <= c <= 'F' {
        Some(c as int - 55)
    } else {
        None
    }
}

/// Whether a word is a hash sign and six hexadecimal digits.
pub open spec fn is_hex_color(value: Seq<char>) -> bool {
    &&& value.len() == 7
    &&& value[0] == '#'
    &&& forall|i: int| 1 <= i < 7 ==> hex_value(#[trigger] value[i]) is Some
}

/// The number written by two hexadecimal digits.
pub open spec fn hex_pair(value: Seq<char>, at: int) -> u8 {
    (hex_value(value[at])->0 * 16 + hex_value(value[at + 1])->0) as u8
}

/// Calls `Color::from_str` of the `ratatui` crate. Claimed: the result depends on
/// the word alone, and a hash sign with six hexadecimal digits is the colour with
/// those parts.
#[verifier::external_body]
pub(crate) fn parse_color(value: &str) -> (r: Option<Color>)
    ensures
        r.deep_view() == parsed_color(value@),
        is_hex_color(value@) ==> r.deep_view() == Some(
            ColorView::Rgb(hex_pair(value@, 1), hex_pair(value@, 3), hex_pair(value@, 5)),
        ),
{
    match value.parse::<ratatui::style::Color>() {
        Ok(ratatui::style::Color::Rgb(r, g, b)) => Some(Color::Rgb(r, g, b)),
        Ok(other) => Some(Color::Named(other.to_string())),
        Err(_) => None,
    }
}

} // verus!
