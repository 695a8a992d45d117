//! Panel geometry.
use vstd::prelude::*;

verus! {

/// A byte container that can be created with every byte set to zero.
pub trait NewZeroed: Sized {
    /// The bytes the container holds, in order.
    spec fn bytes(&self) -> Seq<u8>;

    /// Creates a new value of `len` bytes, each of them zero.
    fn new_zeroed(len: usize) -> (r: Self)
        ensures
            r.bytes() == Seq::new(len as nat, |i: int| 0u8),
    ;
}

impl NewZeroed for Vec<u8> {
    open spec fn bytes(&self) -> Seq<u8> {
        self@
    }

    fn new_zeroed(len: usize) -> (r: Self) {
        let mut v: Vec<u8> = Vec::with_capacity(len);
        let mut i: usize = 0;
        while i < len
            invariant
                i <= len,
                v@ == Seq::new(i as nat, |j: int| 0u8),
            decreases len - i,
        {
            v.push(0u8);
            i = i + 1;
            assert(v@ =~= Seq::new(i as nat, |j: int| 0u8));
        }
        v
    }
}

/// Display size and configuration.
///
/// A panel has an even width of at least two pixels and a height of at least
/// one. Its framebuffer holds two 4-bit pixels per byte, so it is
/// `width * height / 2` bytes long.
pub trait DisplaySize {
    /// Width in pixels, as the contracts see it.
    spec fn spec_width() -> u8;

    /// Height in pixels, as the contracts see it.
    spec fn spec_height() -> u8;

    /// Width in pixels.
    fn width() -> (r: u8)
        ensures
            r == Self::spec_width(),
            2 <= r,
            r % 2 == 0,
    ;

    /// Height in pixels.
    fn height() -> (r: u8)
        ensures
            r == Self::spec_height(),
            1 <= r,
    ;
}

/// Size information for the 128x128 display.
pub struct DisplaySize128x128;

impl DisplaySize for DisplaySize128x128 {
    open spec fn spec_width() -> u8 {
        128
    }

    open spec fn spec_height() -> u8 {
        128
    }

    fn width() -> (r: u8) {
        128
    }

    fn height() -> (r: u8) {
        128
    }
}

} // verus!
