//! VGA text-mode colours and the cell encoding of the screen host module.
use vstd::prelude::*;

verus! {

/// VGA text-mode colours, in the order of their hardware numbers (0 to 15).
#[derive(Debug, Clone, Copy, PartialEq, Eq, Structural)]
pub enum Color {
    Black,
    Blue,
    Green,
    Cyan,
    Red,
    Magenta,
    Brown,
    LightGray,
    DarkGray,
    LightBlue,
    LightGreen,
    LightCyan,
    LightRed,
    Pink,
    Yellow,
    White,
}

impl Color {
    /// The hardware number of the colour.
    pub open spec fn spec_value(self) -> u8 {
        match self {
            Color::Black => 0,
            Color::Blue => 1,
            Color::Green => 2,
            Color::Cyan => 3,
            Color::Red => 4,
            Color::Magenta => 5,
            Color::Brown => 6,
            Color::LightGray => 7,
            Color::DarkGray => 8,
            Color::LightBlue => 9,
            Color::LightGreen => 10,
            Color::LightCyan => 11,
            Color::LightRed => 12,
            Color::Pink => 13,
            Color::Yellow => 14,
            Color::White => 15,
        }
    }

    /// The hardware number of the colour.
    pub fn value(self) -> (v: u8)
        ensures
            v == self.spec_value(),
            v < 16,
    {
        match self {
            Color::Black => 0,
            Color::Blue => 1,
            Color::Green => 2,
            Color::Cyan => 3,
            Color::Red => 4,
            Color::Magenta => 5,
            Color::Brown => 6,
            Color::LightGray => 7,
            Color::DarkGray => 8,
            Color::LightBlue => 9,
            Color::LightGreen => 10,
            Color::LightCyan => 11,
            Color::LightRed => 12,
            Color::Pink => 13,
            Color::Yellow => 14,
            Color::White => 15,
        }
    }
}

/// The attribute byte of a foreground/background pair: background in the
/// high nibble, foreground in the low nibble.
pub open spec fn spec_color(fg: Color, bg: Color) -> u8 {
    (bg.spec_value() * 16 + fg.spec_value()) as u8
}

/// Packs a foreground/background pair into one attribute byte,
/// `(background << 4) | foreground`.
pub fn color(fg: Color, bg: Color) -> (c: u8)
    ensures
        c == spec_color(fg, bg),
        c as int == bg.spec_value() * 16 + fg.spec_value(),
{
    let f = fg.value();
    let b = bg.value();
    let c: u8 = (b << 4u8) | f;
    assert(c == b * 16 + f) by (bit_vector)
        requires
            f < 16,
            b < 16,
            c == (b << 4u8) | f,
    ;
    c
}

/// Different colours have different numbers.
pub proof fn color_values_distinct(a: Color, b: Color)
    ensures
        a.spec_value() == b.spec_value() ==> a == b,
        a.spec_value() < 16,
{
}

/// The attribute byte gives back its pair: the background is the high
/// nibble and the foreground the low one, so different pairs give
/// different bytes.
pub proof fn color_unpacks(fg: Color, bg: Color)
    ensures
        spec_color(fg, bg) / 16 == bg.spec_value(),
        spec_color(fg, bg) % 16 == fg.spec_value(),
        forall|fg2: Color, bg2: Color|
            #[trigger] spec_color(fg2, bg2) == spec_color(fg, bg) ==> fg2 == fg && bg2 == bg,
{
    assert forall|fg2: Color, bg2: Color|
        #[trigger] spec_color(fg2, bg2) == spec_color(fg, bg) implies fg2 == fg && bg2 == bg by {
        color_values_distinct(fg, fg2);
        color_values_distinct(bg, bg2);
        color_values_distinct(fg2, fg);
        color_values_distinct(bg2, bg);
    }
}

/// A screen cell as the host reports it: `None` for a negative value (a
/// position off the screen), else the character byte in the low byte and
/// the attribute byte in the next one.
pub open spec fn spec_decode_cell(packed: i32) -> Option<(u8, u8)> {
    if packed < 0 {
        None
    } else {
        Some(((packed % 256) as u8, ((packed / 256) % 256) as u8))
    }
}

/// Decodes a screen cell as the host reports it.
pub fn decode_cell(packed: i32) -> (cell: Option<(u8, u8)>)
    ensures
        cell == spec_decode_cell(packed),
{
    if packed < 0 {
        return None;
    }
    let ch: i32 = packed & 0xff;
    let attr: i32 = (packed >> 8) & 0xff;
    assert(ch == packed % 256 && attr == (packed / 256) % 256) by (bit_vector)
        requires
            packed >= 0,
            ch == packed & 0xff,
            attr == (packed >> 8) & 0xff,
    ;
    Some((ch as u8, attr as u8))
}

/// The colours carry the VGA text-mode numbers, Black 0 to White 15, in
/// the order Black, Blue, Green, Cyan, Red, Magenta, Brown, Light Gray,
/// Dark Gray, Light Blue, Light Green, Light Cyan, Light Red, Pink, Yellow,
/// White.
pub proof fn vga_color_numbers()
    ensures
        Color::Black.spec_value() == 0,
        Color::Blue.spec_value() == 1,
        Color::Green.spec_value() == 2,
        Color::Cyan.spec_value() == 3,
        Color::Red.spec_value() == 4,
        Color::Magenta.spec_value() == 5,
        Color::Brown.spec_value() == 6,
        Color::LightGray.spec_value() == 7,
        Color::DarkGray.spec_value() == 8,
        Color::LightBlue.spec_value() == 9,
        Color::LightGreen.spec_value() == 10,
        Color::LightCyan.spec_value() == 11,
        Color::LightRed.spec_value() == 12,
        Color::Pink.spec_value() == 13,
        Color::Yellow.spec_value() == 14,
        Color::White.spec_value() == 15,
{
}

/// A cell read back is `None` exactly for a negative value; otherwise the
/// character byte and the attribute byte are the low two bytes of the
/// value, character first: `ch + 256 * attr` is the value modulo 65536.
pub proof fn cells_are_the_low_two_bytes(packed: i32)
    ensures
        packed < 0 <==> spec_decode_cell(packed) is None,
        packed >= 0 ==> {
            let (ch, attr) = spec_decode_cell(packed).unwrap();
            ch + 256 * attr == packed % 65536
        },
{
}

} // verus!
