//! Sizes of pseudoterminals.

use vstd::prelude::*;

use crate::protocol::TerminalSize;

verus! {

/// Size of a pseudoterminal.
#[derive(Debug, Clone, Copy, PartialEq, Eq, Structural)]
pub struct PtyDimensions {
    pub rows: u16,
    pub cols: u16,
    pub pixel_width: u16,
    pub pixel_height: u16,
}

/// A window size as the kernel lays it out.
#[derive(Debug, Clone, Copy, PartialEq, Eq, Structural)]
pub struct WindowSize {
    pub ws_row: u16,
    pub ws_col: u16,
    pub ws_xpixel: u16,
    pub ws_ypixel: u16,
}

/// The kernel's window size for a size.
pub open spec fn kernel_size(size: PtyDimensions) -> WindowSize {
    WindowSize {
        ws_row: size.rows,
        ws_col: size.cols,
        ws_xpixel: size.pixel_width,
        ws_ypixel: size.pixel_height,
    }
}

/// The size for a window size of the kernel.
pub open spec fn size_of_kernel(winsize: WindowSize) -> PtyDimensions {
    PtyDimensions {
        rows: winsize.ws_row,
        cols: winsize.ws_col,
        pixel_width: winsize.ws_xpixel,
        pixel_height: winsize.ws_ypixel,
    }
}

/// The size of a pseudoterminal for a terminal size; its size in pixels is
/// unknown.
pub fn to_pty_size(size: TerminalSize) -> (r: PtyDimensions)
    ensures
        r == (PtyDimensions { rows: size.rows, cols: size.cols, pixel_width: 0, pixel_height: 0 }),
{
    PtyDimensions { rows: size.rows, cols: size.cols, pixel_width: 0, pixel_height: 0 }
}

/// The kernel's window size for a size.
pub fn winsize_from(size: PtyDimensions) -> (r: WindowSize)
    ensures
        r == kernel_size(size),
{
    WindowSize {
        ws_row: size.rows,
        ws_col: size.cols,
        ws_xpixel: size.pixel_width,
        ws_ypixel: size.pixel_height,
    }
}

/// The size for a window size of the kernel.
pub fn pty_size_from(winsize: WindowSize) -> (r: PtyDimensions)
    ensures
        r == size_of_kernel(winsize),
{
    PtyDimensions {
        rows: winsize.ws_row,
        cols: winsize.ws_col,
        pixel_width: winsize.ws_xpixel,
        pixel_height: winsize.ws_ypixel,
    }
}

/// A size that is written to the kernel and read back is the same size.
pub proof fn law_a_size_survives_the_kernel(size: PtyDimensions)
    ensures
        size_of_kernel(kernel_size(size)) == size,
{
}

} // verus!
