//! The navigator's look: light/dark palette choice, the agent spinner and
//! the status glyphs, as plain values the drawing code turns into styles.

use vstd::prelude::*;
use crate::models::AgentStatus;
use crate::text::chars_of;

verus! {

/// The colors the navigator draws with, as RGB triples.
#[derive(Debug, Clone, Copy)]
pub struct Palette {
    pub accent: (u8, u8, u8),
    pub surface0: (u8, u8, u8),
    pub surface1: (u8, u8, u8),
    pub surface_dim: (u8, u8, u8),
    pub overlay0: (u8, u8, u8),
    pub overlay1: (u8, u8, u8),
    pub text: (u8, u8, u8),
    pub subtext0: (u8, u8, u8),
    pub mauve: (u8, u8, u8),
    pub green: (u8, u8, u8),
    pub yellow: (u8, u8, u8),
    pub red: (u8, u8, u8),
    pub blue: (u8, u8, u8),
    pub teal: (u8, u8, u8),
    pub peach: (u8, u8, u8),
}

/// The dark (Tokyo Night) palette.
pub open spec fn dark_palette() -> Palette {
    Palette {
        accent: (122, 162, 247),
        surface0: (36, 40, 59),
        surface1: (65, 72, 104),
        surface_dim: (26, 27, 38),
        overlay0: (86, 95, 137),
        overlay1: (105, 113, 150),
        text: (192, 202, 245),
        subtext0: (169, 177, 214),
        mauve: (187, 154, 247),
        green: (158, 206, 106),
        yellow: (224, 175, 104),
        red: (247, 118, 142),
        blue: (122, 162, 247),
        teal: (125, 207, 255),
        peach: (255, 158, 100),
    }
}

/// The light (Tokyo Night Day) palette.
pub open spec fn light_palette() -> Palette {
    Palette {
        accent: (46, 125, 233),
        surface0: (203, 204, 209),
        surface1: (184, 185, 191),
        surface_dim: (216, 217, 222),
        overlay0: (156, 157, 165),
        overlay1: (139, 140, 148),
        text: (55, 96, 191),
        subtext0: (97, 114, 176),
        mauve: (120, 71, 189),
        green: (88, 117, 57),
        yellow: (143, 94, 21),
        red: (245, 42, 101),
        blue: (46, 125, 233),
        teal: (0, 113, 151),
        peach: (177, 92, 0),
    }
}

impl Palette {
    /// The dark palette.
    pub fn dark() -> (res: Palette)
        ensures
            res == dark_palette(),
    {
        Palette {
            accent: (122, 162, 247),
            surface0: (36, 40, 59),
            surface1: (65, 72, 104),
            surface_dim: (26, 27, 38),
            overlay0: (86, 95, 137),
            overlay1: (105, 113, 150),
            text: (192, 202, 245),
            subtext0: (169, 177, 214),
            mauve: (187, 154, 247),
            green: (158, 206, 106),
            yellow: (224, 175, 104),
            red: (247, 118, 142),
            blue: (122, 162, 247),
            teal: (125, 207, 255),
            peach: (255, 158, 100),
        }
    }

    /// The light palette.
    pub fn light() -> (res: Palette)
        ensures
            res == light_palette(),
    {
        Palette {
            accent: (46, 125, 233),
            surface0: (203, 204, 209),
            surface1: (184, 185, 191),
            surface_dim: (216, 217, 222),
            overlay0: (156, 157, 165),
            overlay1: (139, 140, 148),
            text: (55, 96, 191),
            subtext0: (97, 114, 176),
            mauve: (120, 71, 189),
            green: (88, 117, 57),
            yellow: (143, 94, 21),
            red: (245, 42, 101),
            blue: (46, 125, 233),
            teal: (0, 113, 151),
            peach: (177, 92, 0),
        }
    }

    /// The palette for a Herdr theme: light for a light theme, dark
    /// otherwise (and when no theme is known).
    pub fn for_theme(theme_name: Option<&str>) -> (res: Palette)
        ensures
            res == (match theme_name {
                Some(n) => if is_light_name(n@) {
                    light_palette()
                } else {
                    dark_palette()
                },
                None => dark_palette(),
            }),
    {
        match theme_name {
            Some(n) => if is_light_theme(n) {
                Palette::light()
            } else {
                Palette::dark()
            },
            None => Palette::dark(),
        }
    }
}

/// `s` ends with `suffix`.
pub open spec fn ends_with(s: Seq<char>, suffix: Seq<char>) -> bool {
    s.len() >= suffix.len() && s.subrange(s.len() - suffix.len(), s.len() as int) == suffix
}

fn ends_with_str(s: &[char], suffix: &str) -> (res: bool)
    ensures
        res == ends_with(s@, suffix@),
{
    let x = chars_of(suffix);
    if x.len() > s.len() {
        return false;
    }
    let off = s.len() - x.len();
    let mut i: usize = 0;
    while i < x.len()
        invariant
            x@ == suffix@,
            off + x@.len() == s@.len(),
            s@.len() <= usize::MAX,
            i <= x@.len(),
            forall|k: int| 0 <= k < i ==> s@[off + k] == x@[k],
        decreases x@.len() - i,
    {
        if s[off + i] != x[i] {
            assert(s@.subrange(off as int, s@.len() as int)[i as int] != x@[i as int]);
            return false;
        }
        i = i + 1;
    }
    assert(s@.subrange(off as int, s@.len() as int) =~= x@);
    true
}

/// A theme name that names a light theme (Catppuccin Latte, the `-light`
/// and `-day` variants, Rosé Pine Dawn, Kanagawa Lotus).
pub open spec fn is_light_name(name: Seq<char>) -> bool {
    ends_with(name, "-latte"@) || ends_with(name, "-light"@) || ends_with(name, "-day"@) || ends_with(
        name,
        "-dawn"@,
    ) || ends_with(name, "-lotus"@)
}

/// Whether a Herdr theme name names a light theme.
pub fn is_light_theme(name: &str) -> (res: bool)
    ensures
        res == is_light_name(name@),
{
    let c = chars_of(name);
    ends_with_str(c.as_slice(), "-latte") || ends_with_str(c.as_slice(), "-light") || ends_with_str(
        c.as_slice(),
        "-day",
    ) || ends_with_str(c.as_slice(), "-dawn") || ends_with_str(c.as_slice(), "-lotus")
}

/// The braille spinner frames (as Herdr draws them).
pub open spec fn spinner_frames() -> Seq<Seq<char>> {
    seq!["⠋"@, "⠙"@, "⠹"@, "⠸"@, "⠼"@, "⠴"@, "⠦"@, "⠧"@, "⠇"@, "⠏"@]
}

/// The spinner frame for a render tick: each frame lasts three ticks.
pub fn spinner_frame(tick: u32) -> (res: &'static str)
    ensures
        res@ == spinner_frames()[((tick / 3) % 10) as int],
{
    let k = (tick / 3) % 10;
    if k == 0 {
        "⠋"
    } else if k == 1 {
        "⠙"
    } else if k == 2 {
        "⠹"
    } else if k == 3 {
        "⠸"
    } else if k == 4 {
        "⠼"
    } else if k == 5 {
        "⠴"
    } else if k == 6 {
        "⠦"
    } else if k == 7 {
        "⠧"
    } else if k == 8 {
        "⠇"
    } else {
        "⠏"
    }
}

/// The palette color a status mark is drawn in.
#[derive(Debug, Clone, Copy, PartialEq, Eq, Structural)]
pub enum MarkColor {
    Red,
    Yellow,
    Teal,
    Green,
    Overlay0,
}

impl MarkColor {
    /// The color of this mark in a palette.
    pub fn in_palette(&self, p: &Palette) -> (res: (u8, u8, u8))
        ensures
            res == (match *self {
                MarkColor::Red => p.red,
                MarkColor::Yellow => p.yellow,
                MarkColor::Teal => p.teal,
                MarkColor::Green => p.green,
                MarkColor::Overlay0 => p.overlay0,
            }),
    {
        match self {
            MarkColor::Red => p.red,
            MarkColor::Yellow => p.yellow,
            MarkColor::Teal => p.teal,
            MarkColor::Green => p.green,
            MarkColor::Overlay0 => p.overlay0,
        }
    }
}

/// The dot a status is shown with in the Workspaces and Tabs lists.
pub open spec fn dot_of(st: AgentStatus) -> (Seq<char>, MarkColor) {
    match st {
        AgentStatus::Blocked => ("●"@, MarkColor::Red),
        AgentStatus::Working => ("●"@, MarkColor::Yellow),
        AgentStatus::Done => ("●"@, MarkColor::Teal),
        AgentStatus::Idle => ("○"@, MarkColor::Green),
        AgentStatus::NoAgent => ("·"@, MarkColor::Overlay0),
    }
}

/// The dot and color for a status.
pub fn state_dot(st: &AgentStatus) -> (res: (&'static str, MarkColor))
    ensures
        (res.0@, res.1) == dot_of(*st),
{
    match st {
        AgentStatus::Blocked => ("●", MarkColor::Red),
        AgentStatus::Working => ("●", MarkColor::Yellow),
        AgentStatus::Done => ("●", MarkColor::Teal),
        AgentStatus::Idle => ("○", MarkColor::Green),
        AgentStatus::NoAgent => ("·", MarkColor::Overlay0),
    }
}

/// The icon a status is shown with in the Agents list; a working agent
/// spins.
pub open spec fn icon_of(st: AgentStatus, tick: u32) -> (Seq<char>, MarkColor) {
    match st {
        AgentStatus::Blocked => ("◉"@, MarkColor::Red),
        AgentStatus::Working => (spinner_frames()[((tick / 3) % 10) as int], MarkColor::Yellow),
        AgentStatus::Done => ("●"@, MarkColor::Teal),
        AgentStatus::Idle => ("✓"@, MarkColor::Green),
        AgentStatus::NoAgent => ("○"@, MarkColor::Overlay0),
    }
}

/// The icon and color for an agent's status at a render tick.
pub fn agent_icon(st: &AgentStatus, tick: u32) -> (res: (&'static str, MarkColor))
    ensures
        (res.0@, res.1) == icon_of(*st, tick),
{
    match st {
        AgentStatus::Blocked => ("◉", MarkColor::Red),
        AgentStatus::Working => (spinner_frame(tick), MarkColor::Yellow),
        AgentStatus::Done => ("●", MarkColor::Teal),
        AgentStatus::Idle => ("✓", MarkColor::Green),
        AgentStatus::NoAgent => ("○", MarkColor::Overlay0),
    }
}

} // verus!
