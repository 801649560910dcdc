//! Themes, window title and the RGBA frame that shows the screen.
use vstd::prelude::*;

verus! {

/// Window pixels per screen pixel.
pub const SCALE: u32 = 10;

/// Window width in pixels.
pub const WIDTH: u32 = 64 * SCALE;

/// Window height in pixels.
pub const HEIGHT: u32 = 32 * SCALE;

/// Number of colour themes.
pub const THEME_COUNT: usize = 6;

/// Bytes in one RGBA frame of the 64 by 32 screen.
pub const FRAME_BYTES: usize = 8192;

/// The program's name and version, the first part of the window title.
pub const TITLE: &'static str = "CHIP8 Emulator V1.00";

/// The RGBA colours (off, on) of each theme.
pub open spec fn palette(theme: int) -> (Seq<u8>, Seq<u8>) {
    if theme == 0 {
        (seq![0x00u8, 0x00, 0x00, 0xFF], seq![0xFFu8, 0xFF, 0xFF, 0xFF])
    } else if theme == 1 {
        (seq![0x00u8, 0x00, 0x00, 0xFF], seq![0x00u8, 0xFF, 0x00, 0xFF])
    } else if theme == 2 {
        (seq![0x00u8, 0x00, 0x00, 0xFF], seq![0xFFu8, 0x6B, 0x00, 0xFF])
    } else if theme == 3 {
        (seq![0x1Au8, 0x1A, 0x2E, 0xFF], seq![0xE9u8, 0x4F, 0x6F, 0xFF])
    } else if theme == 4 {
        (seq![0x0Du8, 0x0D, 0x0D, 0xFF], seq![0x00u8, 0xF5, 0xFF, 0xFF])
    } else {
        (seq![0x0Fu8, 0x38, 0x0F, 0xFF], seq![0x8Bu8, 0xAC, 0x0F, 0xFF])
    }
}

/// The name that the title shows for each theme.
pub open spec fn theme_name_spec(theme: int) -> Seq<char> {
    if theme == 0 {
        "Classic"@
    } else if theme == 1 {
        "Green Phosphor"@
    } else if theme == 2 {
        "Amber Monitor"@
    } else if theme == 3 {
        "Synthwave"@
    } else if theme == 4 {
        "Cyan Neon"@
    } else {
        "Game Boy"@
    }
}

/// The RGBA bytes of a screen in a theme: four bytes per pixel, row by row,
/// the "on" colour for a lit pixel and the "off" colour otherwise.
pub open spec fn frame_spec(screen: Seq<bool>, theme: int) -> Seq<u8> {
    Seq::new(
        screen.len() * 4,
        |b: int|
            if screen[b / 4] {
                palette(theme).1[b % 4]
            } else {
                palette(theme).0[b % 4]
            },
    )
}

/// The colours (off, on) of a theme.
pub fn theme_colors(theme: usize) -> (r: ([u8; 4], [u8; 4]))
    requires
        theme < THEME_COUNT,
    ensures
        r.0@ == palette(theme as int).0,
        r.1@ == palette(theme as int).1,
{
    let r = match theme {
        0 => ([0x00, 0x00, 0x00, 0xFF], [0xFF, 0xFF, 0xFF, 0xFF]),
        1 => ([0x00, 0x00, 0x00, 0xFF], [0x00, 0xFF, 0x00, 0xFF]),
        2 => ([0x00, 0x00, 0x00, 0xFF], [0xFF, 0x6B, 0x00, 0xFF]),
        3 => ([0x1A, 0x1A, 0x2E, 0xFF], [0xE9, 0x4F, 0x6F, 0xFF]),
        4 => ([0x0D, 0x0D, 0x0D, 0xFF], [0x00, 0xF5, 0xFF, 0xFF]),
        _ => ([0x0F, 0x38, 0x0F, 0xFF], [0x8B, 0xAC, 0x0F, 0xFF]),
    };
    assert(r.0@ =~= palette(theme as int).0);
    assert(r.1@ =~= palette(theme as int).1);
    r
}

/// The name of a theme.
pub fn theme_name(theme: usize) -> (r: &'static str)
    requires
        theme < THEME_COUNT,
    ensures
        r@ == theme_name_spec(theme as int),
{
    match theme {
        0 => "Classic",
        1 => "Green Phosphor",
        2 => "Amber Monitor",
        3 => "Synthwave",
        4 => "Cyan Neon",
        _ => "Game Boy",
    }
}

/// The presentation state of the screen: which colour theme is shown.
pub struct Display {
    pub theme: usize,
}

impl Display {
    /// Starts in the first theme.
    pub fn new() -> (d: Self)
        ensures
            d.theme == 0,
    {
        Display { theme: 0 }
    }

    /// The RGBA frame that shows `screen` in the current theme.
    pub fn draw(&self, screen: &[bool; 2048]) -> (frame: Vec<u8>)
        requires
            self.theme < THEME_COUNT,
        ensures
            frame@ == frame_spec(screen@, self.theme as int),
            frame@.len() == FRAME_BYTES,
            forall|p: int|
                0 <= p < 2048 ==> #[trigger] frame@.subrange(4 * p, 4 * p + 4) == if screen@[p] {
                    palette(self.theme as int).1
                } else {
                    palette(self.theme as int).0
                },
    {
        let (off, on) = theme_colors(self.theme);
        let ghost want = frame_spec(screen@, self.theme as int);
        let mut frame: Vec<u8> = Vec::new();
        let mut i: usize = 0;
        while i < 2048
            invariant
                0 <= i <= 2048,
                off@ == palette(self.theme as int).0,
                on@ == palette(self.theme as int).1,
                want == frame_spec(screen@, self.theme as int),
                frame@.len() == 4 * i,
                forall|b: int| 0 <= b < 4 * i ==> #[trigger] frame@[b] == want[b],
            decreases 2048 - i,
        {
            let color = if screen[i] { on } else { off };
            let mut c: usize = 0;
            while c < 4
                invariant
                    0 <= i < 2048,
                    0 <= c <= 4,
                    color@ == (if screen@[i as int] { on@ } else { off@ }),
                    off@ == palette(self.theme as int).0,
                    on@ == palette(self.theme as int).1,
                    want == frame_spec(screen@, self.theme as int),
                    frame@.len() == 4 * i + c,
                    forall|b: int| 0 <= b < 4 * i + c ==> #[trigger] frame@[b] == want[b],
                decreases 4 - c,
            {
                frame.push(color[c]);
                proof {
                    let b = 4 * i + c;
                    assert(b / 4 == i && b % 4 == c);
                }
                c = c + 1;
            }
            i = i + 1;
        }
        assert(frame@ =~= want);
        assert forall|p: int| 0 <= p < 2048 implies #[trigger] frame@.subrange(4 * p, 4 * p + 4)
            == if screen@[p] {
            palette(self.theme as int).1
        } else {
            palette(self.theme as int).0
        } by {
            let want_p = if screen@[p] {
                palette(self.theme as int).1
            } else {
                palette(self.theme as int).0
            };
            assert forall|c: int| 0 <= c < 4 implies frame@.subrange(4 * p, 4 * p + 4)[c]
                == want_p[c] by {
                assert((4 * p + c) / 4 == p && (4 * p + c) % 4 == c);
            }
            assert(frame@.subrange(4 * p, 4 * p + 4) =~= want_p);
        }
        frame
    }

    /// Moves to the next theme, after the last back to the first.
    pub fn next_theme(&mut self)
        requires
            old(self).theme < usize::MAX,
        ensures
            final(self).theme == (old(self).theme + 1) % (THEME_COUNT as int),
    {
        self.theme = (self.theme + 1) % THEME_COUNT;
    }

    /// Moves to the previous theme, before the first round to the last.
    pub fn prev_theme(&mut self)
        ensures
            final(self).theme == if old(self).theme == 0 {
                THEME_COUNT - 1
            } else {
                old(self).theme - 1
            },
    {
        self.theme = if self.theme == 0 {
            THEME_COUNT - 1
        } else {
            self.theme - 1
        };
    }

    /// The window title: the program's name and the current theme's name.
    pub fn title(&self) -> (t: String)
        requires
            self.theme < THEME_COUNT,
        ensures
            t@ == TITLE@ + " \u{2014} "@ + theme_name_spec(self.theme as int),
    {
        let mut t = String::from_str(TITLE);
        t.append(" \u{2014} ");
        t.append(theme_name(self.theme));
        t
    }
}

} // verus!
