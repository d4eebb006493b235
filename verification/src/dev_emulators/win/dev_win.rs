use vstd::prelude::*;
use crate::dev_emulators::dev::Dev;
use crate::dev_emulators::dev_utilities::win_dev::WinDevStartAction;

verus! {

/// The byte read when nothing can be read.
pub const DEFAULT: u8 = 0xA4;

/// Bytes of a pixel (RGBA).
pub const PIXEL_BYTE: usize = 4;

/// The request whose byte the screen waits for.
#[derive(Clone, Copy, PartialEq, Eq, Structural)]
pub enum DevWinAwaitAct {
    GetValue,
    SetValue,
}

/// One step right on a row of `w`, back to the start after the end.
pub open spec fn inc_pos(x: usize, w: usize) -> usize {
    ((x + 1) % (w as int)) as usize
}

/// One step left on a row of `w`, to the end before the start.
pub open spec fn dec_pos(x: usize, w: usize) -> usize {
    if x == 0 { (w - 1) as usize } else { (x - 1) as usize }
}

/// A screen as a device: a cursor moves over its cells, a cell's byte is
/// set or read, and a redraw request asks for the buffer to be shown.
pub struct DevWin {
    width: usize,
    height: usize,
    buffer: Vec<u8>,
    pos_x: usize,
    pos_y: usize,
    /// RGBA : 0..4
    pos_pixel: usize,
    awaited_action: Option<DevWinAwaitAct>,
    error: bool,
    infinity: bool,
    /// a redraw was asked for and not yet carried out
    redraw: bool,
}

impl DevWin {
    pub closed spec fn spec_width(&self) -> usize { self.width }
    pub closed spec fn spec_height(&self) -> usize { self.height }
    pub closed spec fn spec_buffer(&self) -> Seq<u8> { self.buffer@ }
    pub closed spec fn spec_x(&self) -> usize { self.pos_x }
    pub closed spec fn spec_y(&self) -> usize { self.pos_y }
    pub closed spec fn spec_pixel(&self) -> usize { self.pos_pixel }
    pub closed spec fn spec_awaited(&self) -> Option<DevWinAwaitAct> { self.awaited_action }
    pub closed spec fn spec_error(&self) -> bool { self.error }
    pub closed spec fn spec_infinity(&self) -> bool { self.infinity }
    pub closed spec fn spec_redraw(&self) -> bool { self.redraw }

    /// The cursor stays on the screen and the buffer holds the screen.
    pub open spec fn wf(&self) -> bool {
        &&& self.spec_width() > 0
        &&& self.spec_height() > 0
        &&& self.spec_x() < self.spec_width()
        &&& self.spec_y() < self.spec_height()
        &&& self.spec_pixel() == 0
        &&& self.spec_width() * self.spec_height() <= self.spec_buffer().len()
    }

    /// Where the cursor is in the buffer.
    pub open spec fn spec_buffer_pos(&self) -> int {
        self.spec_pixel() + self.spec_x() + self.spec_width() * self.spec_y()
    }

    /// A screen of `width` by `height` shown from `buffer`.
    pub fn new(width: usize, height: usize, buffer: Vec<u8>) -> (r: Self)
        requires
            width > 0,
            height > 0,
            width * height <= buffer@.len(),
        ensures
            r.wf(),
            r.spec_width() == width,
            r.spec_height() == height,
            r.spec_buffer() == buffer@,
            r.spec_x() == 0,
            r.spec_y() == 0,
            r.spec_awaited() is None,
            !r.spec_error(),
            !r.spec_infinity(),
            !r.spec_redraw(),
    {
        Self {
            width,
            height,
            buffer,
            pos_x: 0,
            pos_y: 0,
            pos_pixel: 0,
            awaited_action: None,
            error: false,
            infinity: false,
            redraw: false,
        }
    }

    fn get_buffer_pos(&self) -> (r: usize)
        requires
            self.wf(),
        ensures
            r == self.spec_buffer_pos(),
            r < self.spec_buffer().len(),
    {
        let len = self.buffer.len();
        proof {
            let w = self.width as int;
            let h = self.height as int;
            let x = self.pos_x as int;
            let y = self.pos_y as int;
            assert(w * y + x < w * h) by (nonlinear_arith)
                requires 0 <= y < h, 0 <= x < w;
        }
        self.pos_pixel + self.pos_x + self.width * self.pos_y
    }

    fn check_wf(&self) -> (r: bool)
        ensures
            r == self.wf(),
    {
        if self.pos_pixel != 0 || self.pos_x >= self.width || self.pos_y >= self.height
            || self.width == 0 || self.height == 0 {
            return false;
        }
        let len = self.buffer.len();
        match self.width.checked_mul(self.height) {
            Some(p) => p <= len,
            None => false,
        }
    }

    /// The buffer that a redraw shows.
    pub fn buffer(&self) -> (r: &Vec<u8>)
        ensures
            r@ == self.spec_buffer(),
    {
        &self.buffer
    }

    /// Whether a redraw was asked for; the request is taken.
    pub fn take_redraw(&mut self) -> (r: bool)
        ensures
            r == old(self).spec_redraw(),
            !final(self).spec_redraw(),
            final(self).spec_buffer() == old(self).spec_buffer(),
            final(self).spec_x() == old(self).spec_x(),
            final(self).spec_y() == old(self).spec_y(),
            final(self).spec_pixel() == old(self).spec_pixel(),
            final(self).spec_width() == old(self).spec_width(),
            final(self).spec_height() == old(self).spec_height(),
            final(self).spec_awaited() == old(self).spec_awaited(),
            final(self).spec_error() == old(self).spec_error(),
            final(self).spec_infinity() == old(self).spec_infinity(),
    {
        let r = self.redraw;
        self.redraw = false;
        r
    }

    /// Showing the buffer failed: the device fails.
    pub fn redraw_failed(&mut self)
        ensures
            final(self).spec_error(),
            final(self).spec_buffer() == old(self).spec_buffer(),
            final(self).spec_x() == old(self).spec_x(),
            final(self).spec_y() == old(self).spec_y(),
            final(self).spec_pixel() == old(self).spec_pixel(),
            final(self).spec_width() == old(self).spec_width(),
            final(self).spec_height() == old(self).spec_height(),
            final(self).spec_awaited() == old(self).spec_awaited(),
            final(self).spec_infinity() == old(self).spec_infinity(),
            final(self).spec_redraw() == old(self).spec_redraw(),
    {
        self.error = true;
    }

    /// The state after the screen took `byte` (with no error before).
    pub open spec fn after_write(self, new: Self, byte: u8) -> bool {
        &&& new.spec_width() == self.spec_width()
        &&& new.spec_height() == self.spec_height()
        &&& new.spec_pixel() == self.spec_pixel()
        &&& !new.spec_infinity()
        &&& match self.spec_awaited() {
            Some(DevWinAwaitAct::GetValue) => new.spec_error() && new.spec_buffer() == self.spec_buffer()
                && new.spec_x() == self.spec_x() && new.spec_y() == self.spec_y()
                && new.spec_redraw() == self.spec_redraw() && new.spec_awaited() == self.spec_awaited(),
            Some(DevWinAwaitAct::SetValue) => !new.spec_error()
                && new.spec_buffer() == self.spec_buffer().update(self.spec_buffer_pos(), byte)
                && new.spec_x() == self.spec_x() && new.spec_y() == self.spec_y()
                && new.spec_redraw() == self.spec_redraw() && new.spec_awaited() is None,
            None => {
                &&& new.spec_buffer() == self.spec_buffer()
                &&& new.spec_error() == !(byte == 4 || byte == 8 || byte == 6 || byte == 2
                    || byte == 13 || byte == 15 || byte == 14)
                &&& new.spec_x() == (if byte == 4 { dec_pos(self.spec_x(), self.spec_width()) }
                    else if byte == 6 { inc_pos(self.spec_x(), self.spec_width()) }
                    else if byte == 13 { 0 } else { self.spec_x() })
                &&& new.spec_y() == (if byte == 8 { dec_pos(self.spec_y(), self.spec_height()) }
                    else if byte == 2 { inc_pos(self.spec_y(), self.spec_height()) }
                    else if byte == 13 { 0 } else { self.spec_y() })
                &&& new.spec_redraw() == (self.spec_redraw() || byte == 13)
                &&& new.spec_awaited() == (if byte == 15 { Some(DevWinAwaitAct::SetValue) }
                    else if byte == 14 { Some(DevWinAwaitAct::GetValue) } else { None })
            },
        }
    }
}

impl Dev for DevWin {
    /// The byte of the cell under the cursor, after a `GetWinValue`
    /// request. Reading after an error makes the wait endless; reading
    /// without the request is an error.
    fn read_byte(&mut self) -> (b: u8)
        ensures
            old(self).spec_infinity() ==> b == DEFAULT && *final(self) == *old(self),
            !old(self).spec_infinity() && old(self).spec_error() ==>
                b == DEFAULT && final(self).spec_infinity() && final(self).spec_error()
                && final(self).spec_buffer() == old(self).spec_buffer(),
            !old(self).spec_infinity() && !old(self).spec_error()
                && old(self).spec_awaited() != Some(DevWinAwaitAct::GetValue) ==>
                b == DEFAULT && final(self).spec_error() && !final(self).spec_infinity()
                && final(self).spec_buffer() == old(self).spec_buffer(),
            !old(self).spec_infinity() && !old(self).spec_error() && old(self).wf()
                && old(self).spec_awaited() == Some(DevWinAwaitAct::GetValue) ==>
                b == old(self).spec_buffer()[old(self).spec_buffer_pos()]
                && final(self).spec_awaited() is None
                && final(self).wf()
                && final(self).spec_buffer() == old(self).spec_buffer()
                && final(self).spec_x() == old(self).spec_x()
                && final(self).spec_y() == old(self).spec_y()
                && !final(self).spec_error() && !final(self).spec_infinity(),
    {
        if self.infinity {
            return DEFAULT;
        }
        if self.error {
            self.infinity = true;
            return DEFAULT;
        }
        if !self.test_can_read_byte() {
            self.error = true;
            return DEFAULT;
        }
        if !self.check_wf() {
            self.error = true;
            return DEFAULT;
        }
        let ret = self.buffer[self.get_buffer_pos()];
        self.pos_pixel = self.pos_pixel % PIXEL_BYTE;
        self.awaited_action = None;
        ret
    }

    /// Take a request byte, or the value byte of a `SetWinValue` request.
    /// A byte that fits no request is an error, and so is any byte after
    /// a `GetWinValue` request.
    fn write_byte(&mut self, byte: u8)
        ensures
            old(self).spec_infinity() || old(self).spec_error() ==> *final(self) == *old(self),
            !old(self).spec_infinity() && !old(self).spec_error() && old(self).wf() ==>
                final(self).wf() && old(self).after_write(*final(self), byte),
    {
        if self.infinity || self.error {
            return;
        }
        if !self.check_wf() {
            self.error = true;
            return;
        }
        match self.awaited_action {
            None => {}
            Some(DevWinAwaitAct::GetValue) => {
                self.error = true;
                return;
            }
            Some(DevWinAwaitAct::SetValue) => {
                let p = self.get_buffer_pos();
                self.buffer.set(p, byte);
                self.pos_pixel = self.pos_pixel % PIXEL_BYTE;
                self.awaited_action = None;
                return;
            }
        }
        if byte == WinDevStartAction::DecCoordX.to_byte() {
            self.pos_x = if self.pos_x == 0 { self.width - 1 } else { self.pos_x - 1 };
        } else if byte == WinDevStartAction::DecCoordY.to_byte() {
            self.pos_y = if self.pos_y == 0 { self.height - 1 } else { self.pos_y - 1 };
        } else if byte == WinDevStartAction::IncCoordX.to_byte() {
            self.pos_x = (self.pos_x + 1) % self.width;
        } else if byte == WinDevStartAction::IncCoordY.to_byte() {
            self.pos_y = (self.pos_y + 1) % self.height;
        } else if byte == WinDevStartAction::RedrawWin.to_byte() {
            self.redraw = true;
            self.pos_x = 0;
            self.pos_y = 0;
            self.pos_pixel = 0;
        } else if byte == WinDevStartAction::SetWinValue.to_byte() {
            self.awaited_action = Some(DevWinAwaitAct::SetValue);
        } else if byte == WinDevStartAction::GetWinValue.to_byte() {
            self.awaited_action = Some(DevWinAwaitAct::GetValue);
        } else {
            self.error = true;
        }
    }

    fn test_can_read_byte(&self) -> (r: bool)
        ensures
            r == (!self.spec_error() && !self.spec_infinity()
                && self.spec_awaited() == Some(DevWinAwaitAct::GetValue)),
    {
        if self.error || self.infinity {
            false
        } else {
            match self.awaited_action {
                Some(DevWinAwaitAct::GetValue) => true,
                _ => false,
            }
        }
    }

    fn have_error(&self) -> (r: bool)
        ensures
            r == self.spec_error(),
    {
        self.error
    }

    fn in_infinity_state(&self) -> (r: bool)
        ensures
            r == self.spec_infinity(),
    {
        self.infinity
    }
}

/// What a read gives back of a write: after `SetWinValue`, a byte, and
/// `GetWinValue`, the cell under the cursor (which a read hands out)
/// holds that byte.
pub proof fn law_win_read_after_set(d0: DevWin, d1: DevWin, d2: DevWin, d3: DevWin, byte: u8)
    requires
        d0.wf(),
        !d0.spec_error(),
        !d0.spec_infinity(),
        d0.spec_awaited() is None,
        d0.after_write(d1, 15),
        d1.after_write(d2, byte),
        d2.after_write(d3, 14),
    ensures
        d3.spec_awaited() == Some(DevWinAwaitAct::GetValue),
        !d3.spec_error(),
        d3.spec_buffer_pos() == d0.spec_buffer_pos(),
        d3.spec_buffer()[d3.spec_buffer_pos()] == byte,
{
    let w = d0.spec_width() as int;
    let h = d0.spec_height() as int;
    let x = d0.spec_x() as int;
    let y = d0.spec_y() as int;
    assert(w * y + x < w * h) by (nonlinear_arith)
        requires 0 <= y < h, 0 <= x < w;
}

}
