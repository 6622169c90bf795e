use vstd::prelude::*;

use crate::buttons::Button;
use crate::errors::AppError;

verus! {

/// A pixel surface with a fixed 16-bit color model, implemented by a
/// swappable display driver. Each frame's drawing is bracketed by `select` /
/// `deselect` (chip-select assertion), and a failed transfer is reported as
/// `AppError::Display`. The clauses here are the contract a driver is
/// expected to honor; what is proved through them holds of a concrete
/// driver only as far as it does.
pub trait PixelSurface {
    /// Whether the display is selected (chip select asserted). A driver that
    /// does not model its select line leaves the default.
    open spec fn selected(&self) -> bool {
        false
    }

    /// Assert exclusive access to the display before a frame's drawing.
    fn select(&mut self)
        ensures
            final(self).selected(),
    ;

    /// Release exclusive access to the display after a frame's drawing.
    fn deselect(&mut self)
        ensures
            !final(self).selected(),
    ;

    /// Render a line of text with its top-left corner at the given
    /// coordinates, over whatever is already on the surface. Drawing never
    /// touches the select line.
    fn draw_text(&mut self, x: i32, y: i32, text: &Vec<u8>) -> (r: Result<(), AppError>)
        ensures
            final(self).selected() == old(self).selected(),
    ;

    /// Copy a rectangle of 16-bit pixels, `width` pixels per row, onto the
    /// surface at the given offset. Drawing never touches the select line.
    fn blit(&mut self, x: i32, y: i32, width: u32, pixels: &Vec<u16>) -> (r: Result<
        (),
        AppError,
    >)
        ensures
            final(self).selected() == old(self).selected(),
    ;
}

/// A read/write file interface over a block device, implemented by a
/// swappable storage driver. The clauses here are the contract a driver is
/// expected to honor; what is proved through them holds of a concrete
/// driver only as far as it does.
pub trait FileStore {
    /// The files the store currently holds: contents by name. A driver that
    /// does not model its contents leaves the default, the empty store.
    open spec fn files(&self) -> Map<Seq<char>, Seq<u8>> {
        Map::empty()
    }

    /// Read a whole file. A missing file, or a store that is unavailable, is
    /// a normal empty result — never a panic. Whatever comes back as `Some`
    /// is the named file's contents.
    fn read_file(&mut self, name: &str) -> (r: Result<Option<Vec<u8>>, AppError>)
        ensures
            r matches Ok(Some(data)) ==> old(self).files().contains_key(name@) && data@ == old(
                self,
            ).files()[name@],
    ;

    /// Replace the named file's contents.
    fn write_file(&mut self, name: &str, data: &Vec<u8>) -> (r: Result<(), AppError>)
        ensures
            r is Ok ==> final(self).files() == old(self).files().insert(name@, data@),
    ;
}

/// A monotonic clock, implemented by a swappable timer driver. Instants are
/// opaque tick counts with a fixed sub-second scaling factor that the driver
/// documents (ticks per second).
pub trait TimeSource {
    /// The current instant. Fails with `AppError::ClockBorrow` only if the
    /// underlying timer is concurrently borrowed.
    fn try_now(&mut self) -> Result<u64, AppError>;
}

/// The configured digital input lines, implemented by the GPIO driver.
pub trait InputLines {
    /// The current level of one line: `true` reads high. The hardware is
    /// active-low, so a held button reads `false`.
    fn read_level(&mut self, line: Button) -> bool;
}

} // verus!
