//! A labelled rectangular button. Lengths are thousandths of a pixel.
use vstd::prelude::*;
use crate::particles::{DrawCommand, add_clamped, clamped_add};

verus! {

pub const BUTTON_COLOR: u32 = 0x555555;

pub const BUTTON_HOVER_COLOR: u32 = 0x777777;

pub const BUTTON_TEXT_COLOR: u32 = 0xFFFFFF;

/// Width of one character of a label.
pub const CHAR_WIDTH: i64 = 8000;

/// Height of a line of label text.
pub const TEXT_HEIGHT: i64 = 8000;

#[derive(Debug)]
pub struct Button {
    /// `(x, y, width, height)`.
    pub rect: (i64, i64, i64, i64),
    pub label: String,
    pub color: u32,
    pub hover_color: u32,
    pub text_color: u32,
}

/// Half of `d`, rounded toward zero.
pub open spec fn half(d: int) -> int {
    if d >= 0 {
        d / 2
    } else {
        -((-d) / 2)
    }
}

fn half_exec(d: i64) -> (r: i64)
    ensures
        r == half(d as int),
{
    if d >= 0 {
        d / 2
    } else {
        let t: i64 = -(d + 1);
        -(t / 2 + t % 2)
    }
}

/// The number of UTF-8 bytes of `s`, as a length in memory.
pub open spec fn byte_len(s: Seq<char>) -> nat {
    (vstd::utf8::encode_utf8(s).len() as usize) as nat
}

/// The width a label of `len` bytes (of UTF-8) takes, held at the limit of `i64`.
pub open spec fn text_width(len: nat) -> i64 {
    if len * CHAR_WIDTH > i64::MAX {
        i64::MAX
    } else {
        (len * CHAR_WIDTH) as i64
    }
}

fn text_width_exec(len: usize) -> (r: i64)
    ensures
        r == text_width(len as nat),
{
    if len as u64 > (i64::MAX / CHAR_WIDTH) as u64 {
        proof {
            assert(len * CHAR_WIDTH > i64::MAX) by (nonlinear_arith)
                requires
                    len > i64::MAX / CHAR_WIDTH,
            ;
        }
        i64::MAX
    } else {
        proof {
            assert(len * CHAR_WIDTH <= i64::MAX) by (nonlinear_arith)
                requires
                    len <= i64::MAX / CHAR_WIDTH,
            ;
        }
        len as i64 * CHAR_WIDTH
    }
}

impl Button {
    pub fn new(x: i64, y: i64, width: i64, height: i64, label: &str) -> (r: Button)
        ensures
            r.rect == (x, y, width, height),
            r.label@ == label@,
            r.color == BUTTON_COLOR,
            r.hover_color == BUTTON_HOVER_COLOR,
            r.text_color == BUTTON_TEXT_COLOR,
    {
        Button {
            rect: (x, y, width, height),
            label: label.to_owned(),
            color: BUTTON_COLOR,
            hover_color: BUTTON_HOVER_COLOR,
            text_color: BUTTON_TEXT_COLOR,
        }
    }

    pub fn with_colors(self, color: u32, hover_color: u32, text_color: u32) -> (r: Button)
        ensures
            r == (Button { color, hover_color, text_color, ..self }),
    {
        Button { color, hover_color, text_color, ..self }
    }

    pub open spec fn hovered(&self, mouse: (i64, i64)) -> bool {
        let (x, y, w, h) = self.rect;
        x <= mouse.0 <= clamped_add(x, w) && y <= mouse.1 <= clamped_add(y, h)
    }

    /// Whether `mouse` lies on the button, edges included.
    pub fn is_hovering(&self, mouse: (i64, i64)) -> (r: bool)
        ensures
            r == self.hovered(mouse),
    {
        let (x, y, w, h) = self.rect;
        x <= mouse.0 && mouse.0 <= add_clamped(x, w) && y <= mouse.1 && mouse.1 <= add_clamped(y, h)
    }

    /// The button's rectangle, in its hover color when `mouse` is on it, then its
    /// label centered in it.
    pub fn draw(&self, mouse: (i64, i64)) -> (r: Vec<DrawCommand>)
        ensures
            r@.len() == 2,
            r@[0] == (DrawCommand::Rect {
                x: self.rect.0,
                y: self.rect.1,
                w: self.rect.2,
                h: self.rect.3,
                color: if self.hovered(mouse) {
                    self.hover_color
                } else {
                    self.color
                },
            }),
            r@[1] == (DrawCommand::Text {
                text: self.label,
                x: clamped_add(
                    self.rect.0,
                    half(
                        clamped_add(
                            self.rect.2,
                            (-text_width(byte_len(self.label@))) as i64,
                        ) as int,
                    ) as i64,
                ),
                y: clamped_add(
                    self.rect.1,
                    half(clamped_add(self.rect.3, (-TEXT_HEIGHT) as i64) as int) as i64,
                ),
                color: self.text_color,
            }),
    {
        let (x, y, w, h) = self.rect;
        let color = if self.is_hovering(mouse) {
            self.hover_color
        } else {
            self.color
        };
        let len = self.label.as_str().len();
        let width = text_width_exec(len);
        let text_x = add_clamped(x, half_exec(add_clamped(w, -width)));
        let text_y = add_clamped(y, half_exec(add_clamped(h, -TEXT_HEIGHT)));
        let mut r: Vec<DrawCommand> = Vec::new();
        r.push(DrawCommand::Rect { x, y, w, h, color });
        r.push(DrawCommand::Text { text: self.label.clone(), x: text_x, y: text_y, color: self.text_color });
        r
    }
}

} // verus!
