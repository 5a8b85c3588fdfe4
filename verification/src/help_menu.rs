//! The help menu: its text, and where it stands on the screen.

use crate::layout::Rect;
use vstd::prelude::*;

verus! {

/// The width in columns that the help text needs.
pub const TEXT_WIDTH: u16 = 48;

/// The height in rows that the help text needs.
pub const TEXT_HEIGHT: u16 = 29;

/// The help menu.
#[derive(Debug)]
pub struct HelpMenu {
    lines: Vec<&'static str>,
}

/// The smaller of two lengths.
pub open spec fn shorter(a: u16, b: u16) -> u16 {
    if a <= b {
        a
    } else {
        b
    }
}

/// The rectangle of the help menu in an area of the given size with its
/// corner at the origin: as large as the text, cut to the area, and
/// centred in it.
pub open spec fn centred(width: u16, height: u16) -> Rect {
    let w = shorter(TEXT_WIDTH, width);
    let h = shorter(TEXT_HEIGHT, height);
    Rect { x: ((width - w) / 2) as u16, y: ((height - h) / 2) as u16, width: w, height: h }
}

/// The lines of the help text.
pub open spec fn help_text() -> Seq<Seq<char>> {
    seq![
        "Quit: q or <C-c>"@,
        "Pause: <Space>"@,
        "Process navigation:"@,
        "  - k and <Up>: up"@,
        "  - j and <Down>: down"@,
        "  - <C-u>: half page up"@,
        "  - <C-d>: half page down"@,
        "  - <C-b>: full page up"@,
        "  - <C-f>: full page down"@,
        "  - g and <Home>: jump to top"@,
        "  - G and <End>: jump to bottom"@,
        "Process actions:"@,
        "  - <Tab>: toggle process grouping"@,
        "  - x: kill selected process or process group"@,
        "Process sorting:"@,
        "  - p: PID/Count"@,
        "  - n: Command"@,
        "  - c: CPU"@,
        "  - m: Mem"@,
        "Process filtering:"@,
        "  - /: start editing filter"@,
        "  - (while editing):"@,
        "    - <Enter>: accept filter"@,
        "    - <C-c> and <Escape>: clear filter"@,
    ]
}

impl View for HelpMenu {
    type V = Seq<Seq<char>>;

    closed spec fn view(&self) -> Seq<Seq<char>> {
        self.lines@.map_values(|line: &'static str| line@)
    }
}

impl HelpMenu {
    /// The help menu with its text.
    pub fn new() -> (menu: HelpMenu)
        ensures
            menu@ == help_text(),
    {
        let mut lines: Vec<&'static str> = Vec::new();
        lines.push("Quit: q or <C-c>");
        lines.push("Pause: <Space>");
        lines.push("Process navigation:");
        lines.push("  - k and <Up>: up");
        lines.push("  - j and <Down>: down");
        lines.push("  - <C-u>: half page up");
        lines.push("  - <C-d>: half page down");
        lines.push("  - <C-b>: full page up");
        lines.push("  - <C-f>: full page down");
        lines.push("  - g and <Home>: jump to top");
        lines.push("  - G and <End>: jump to bottom");
        lines.push("Process actions:");
        lines.push("  - <Tab>: toggle process grouping");
        lines.push("  - x: kill selected process or process group");
        lines.push("Process sorting:");
        lines.push("  - p: PID/Count");
        lines.push("  - n: Command");
        lines.push("  - c: CPU");
        lines.push("  - m: Mem");
        lines.push("Process filtering:");
        lines.push("  - /: start editing filter");
        lines.push("  - (while editing):");
        lines.push("    - <Enter>: accept filter");
        lines.push("    - <C-c> and <Escape>: clear filter");
        let menu = HelpMenu { lines };
        assert(menu@ =~= help_text());
        menu
    }

    /// The line at position `i`.
    pub fn line(&self, i: usize) -> (line: &'static str)
        requires
            i < self@.len(),
        ensures
            line@ == self@[i as int],
    {
        self.lines[i]
    }

    /// The number of lines.
    pub fn len(&self) -> (n: usize)
        ensures
            n == self@.len(),
    {
        self.lines.len()
    }

    /// The rectangle in which the menu is drawn when the screen is `area`.
    /// It lies inside a screen whose corner is the origin.
    pub fn get_rect(&self, area: Rect) -> (rect: Rect)
        ensures
            rect == centred(area.width, area.height),
            rect.x + rect.width <= area.width,
            rect.y + rect.height <= area.height,
    {
        let width = if TEXT_WIDTH <= area.width {
            TEXT_WIDTH
        } else {
            area.width
        };
        let height = if TEXT_HEIGHT <= area.height {
            TEXT_HEIGHT
        } else {
            area.height
        };
        Rect { x: (area.width - width) / 2, y: (area.height - height) / 2, width, height }
    }
}

} // verus!
