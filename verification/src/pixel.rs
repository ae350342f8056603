//! A pixel and the value by which it is classified and sorted.

use vstd::prelude::*;
use crate::config::{Bound, Config, Mode};

verus! {

/// One pixel: red, green, blue and alpha, eight bits each.
#[derive(Clone, Copy, Debug, PartialEq, Eq, Structural)]
pub struct Pixel {
    pub r: u8,
    pub g: u8,
    pub b: u8,
    pub a: u8,
}

/// The brightness of a pixel: 0.2126 of red, 0.7152 of green and 0.0722 of
/// blue, rounded down. Alpha plays no part.
pub open spec fn luma(p: Pixel) -> int {
    (2126 * p.r + 7152 * p.g + 722 * p.b) / 10000
}

/// The value of a pixel under a mode: one of its channels, or its brightness.
pub open spec fn value_of(mode: Mode, p: Pixel) -> int {
    match mode {
        Mode::Red => p.r as int,
        Mode::Green => p.g as int,
        Mode::Blue => p.b as int,
        Mode::Alpha => p.a as int,
        Mode::Luma => luma(p),
    }
}

/// Whether a value may belong to a run: above the threshold where it is a
/// lower bound, below it where it is an upper bound.
pub open spec fn admits(bound: Bound, threshold: u8, value: int) -> bool {
    match bound {
        Bound::Min => value > threshold,
        Bound::Max => value < threshold,
    }
}

/// Whether a pixel may belong to a run under a configuration.
pub open spec fn meets(config: Config, p: Pixel) -> bool {
    admits(config.bound, config.threshold, value_of(config.mode, p))
}

/// The key by which a run is ordered: the value itself, or its negation where
/// the order is reversed.
pub open spec fn key_of(mode: Mode, reverse: bool, p: Pixel) -> int {
    if reverse {
        -value_of(mode, p)
    } else {
        value_of(mode, p)
    }
}

/// The value of a pixel under a mode.
pub fn pixel_value(mode: Mode, pixel: &Pixel) -> (v: u8)
    ensures
        v == value_of(mode, *pixel),
{
    match mode {
        Mode::Red => pixel.r,
        Mode::Green => pixel.g,
        Mode::Blue => pixel.b,
        Mode::Alpha => pixel.a,
        Mode::Luma => {
            let r: u32 = pixel.r as u32;
            let g: u32 = pixel.g as u32;
            let b: u32 = pixel.b as u32;
            let weighted: u32 = 2126 * r + 7152 * g + 722 * b;
            (weighted / 10000) as u8
        },
    }
}

/// The value of a pixel under the configured mode.
pub fn get_value(config: &Config, pixel: &Pixel) -> (v: u8)
    ensures
        v == value_of(config.mode, *pixel),
{
    pixel_value(config.mode, pixel)
}

/// Whether a pixel meets the configured threshold.
pub fn meets_threshold(config: &Config, pixel: &Pixel) -> (ok: bool)
    ensures
        ok == meets(*config, *pixel),
        config.bound == Bound::Min ==> (ok <==> value_of(config.mode, *pixel) > config.threshold),
        config.bound == Bound::Max ==> (ok <==> value_of(config.mode, *pixel) < config.threshold),
{
    let value: u8 = get_value(config, pixel);
    match config.bound {
        Bound::Min => value > config.threshold,
        Bound::Max => value < config.threshold,
    }
}

/// The key by which a pixel is ordered within a run. Sixteen signed bits hold
/// the negation of any value.
pub fn sort_key(mode: Mode, reverse: bool, pixel: &Pixel) -> (k: i16)
    ensures
        k == key_of(mode, reverse, *pixel),
{
    let v: i16 = pixel_value(mode, pixel) as i16;
    if reverse {
        -v
    } else {
        v
    }
}

} // verus!
