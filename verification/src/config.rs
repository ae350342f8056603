//! The configuration of a sort: direction, mode, threshold and bound, each
//! resolved from the text in which it is given.

use vstd::prelude::*;
use crate::text::{byte_of, parse_byte, str_eq};

verus! {

/// A direction of sorting.
#[derive(Clone, Copy, Debug, PartialEq, Eq, Structural)]
pub enum Direction {
    Up,
    Right,
    Down,
    Left,
}

/// The value on which pixels are classified and sorted.
#[derive(Clone, Copy, Debug, PartialEq, Eq, Structural)]
pub enum Mode {
    Red,
    Green,
    Blue,
    Alpha,
    Luma,
}

/// Whether the threshold is a lower or an upper limit for a run.
#[derive(Clone, Copy, Debug, PartialEq, Eq, Structural)]
pub enum Bound {
    Min,
    Max,
}

/// Configuration options for pixel sorting.
#[derive(Clone, Copy, Debug, PartialEq, Eq, Structural)]
pub struct Config {
    pub direction: Direction,
    pub mode: Mode,
    pub threshold: u8,
    pub bound: Bound,
}

/// The direction that a name stands for.
pub open spec fn direction_named(s: Seq<char>) -> Option<Direction> {
    if s == "up"@ {
        Some(Direction::Up)
    } else if s == "right"@ {
        Some(Direction::Right)
    } else if s == "down"@ {
        Some(Direction::Down)
    } else if s == "left"@ {
        Some(Direction::Left)
    } else {
        None
    }
}

/// The mode that a name stands for.
pub open spec fn mode_named(s: Seq<char>) -> Option<Mode> {
    if s == "red"@ {
        Some(Mode::Red)
    } else if s == "green"@ {
        Some(Mode::Green)
    } else if s == "blue"@ {
        Some(Mode::Blue)
    } else if s == "alpha"@ {
        Some(Mode::Alpha)
    } else if s == "luma"@ {
        Some(Mode::Luma)
    } else {
        None
    }
}

/// The bound that a name stands for.
pub open spec fn bound_named(s: Seq<char>) -> Option<Bound> {
    if s == "min"@ {
        Some(Bound::Min)
    } else if s == "max"@ {
        Some(Bound::Max)
    } else {
        None
    }
}

/// The threshold that a mode and an optional text resolve to: the byte that
/// the text writes, or the mode's default where there is no text or it
/// writes no byte.
pub open spec fn threshold_for(mode: Mode, text: Option<Seq<char>>) -> u8 {
    match text {
        Some(t) => match byte_of(t) {
            Some(v) => v,
            None => mode.spec_default_threshold(),
        },
        None => mode.spec_default_threshold(),
    }
}

/// The text of an optional string.
pub open spec fn text_of(s: Option<&str>) -> Option<Seq<char>> {
    match s {
        Some(t) => Some(t@),
        None => None,
    }
}

impl Direction {
    pub open spec fn spec_is_vertical(&self) -> bool {
        *self == Direction::Up || *self == Direction::Down
    }

    pub open spec fn spec_is_reverse(&self) -> bool {
        *self == Direction::Up || *self == Direction::Left
    }

    /// Returns true if the image is sorted vertically.
    #[verifier::when_used_as_spec(spec_is_vertical)]
    pub fn is_vertical(&self) -> (v: bool)
        ensures
            v == self.spec_is_vertical(),
    {
        match self {
            Direction::Up | Direction::Down => true,
            Direction::Right | Direction::Left => false,
        }
    }

    /// Returns true if the direction requires a reversed sort.
    #[verifier::when_used_as_spec(spec_is_reverse)]
    pub fn is_reverse(&self) -> (v: bool)
        ensures
            v == self.spec_is_reverse(),
    {
        match self {
            Direction::Left | Direction::Up => true,
            Direction::Right | Direction::Down => false,
        }
    }

    /// Whether a string is the name of a direction.
    pub fn is_name(s: &str) -> (ok: bool)
        ensures
            ok == direction_named(s@).is_some(),
    {
        str_eq(s, "up") || str_eq(s, "right") || str_eq(s, "down") || str_eq(s, "left")
    }

    /// Reads a direction from its name. Any other string is a fault of the
    /// caller, who tests with `is_name` where the string is not known.
    pub fn from_str(s: &str) -> (out: Direction)
        requires
            direction_named(s@).is_some(),
        ensures
            Some(out) == direction_named(s@),
    {
        if str_eq(s, "up") {
            Direction::Up
        } else if str_eq(s, "right") {
            Direction::Right
        } else if str_eq(s, "down") {
            Direction::Down
        } else {
            Direction::Left
        }
    }
}

impl Mode {
    pub open spec fn spec_default_threshold(&self) -> u8 {
        if *self == Mode::Luma {
            50
        } else {
            100
        }
    }

    /// The threshold used for a mode where none is given.
    #[verifier::when_used_as_spec(spec_default_threshold)]
    pub fn default_threshold(&self) -> (t: u8)
        ensures
            t == self.spec_default_threshold(),
    {
        match self {
            Mode::Red => 100,
            Mode::Green => 100,
            Mode::Blue => 100,
            Mode::Alpha => 100,
            Mode::Luma => 50,
        }
    }

    /// Whether a string is the name of a mode.
    pub fn is_name(s: &str) -> (ok: bool)
        ensures
            ok == mode_named(s@).is_some(),
    {
        str_eq(s, "red") || str_eq(s, "green") || str_eq(s, "blue") || str_eq(s, "alpha")
            || str_eq(s, "luma")
    }

    /// Reads a mode from its name. Any other string is a fault of the
    /// caller, who tests with `is_name` where the string is not known.
    pub fn from_str(s: &str) -> (out: Mode)
        requires
            mode_named(s@).is_some(),
        ensures
            Some(out) == mode_named(s@),
    {
        if str_eq(s, "red") {
            Mode::Red
        } else if str_eq(s, "green") {
            Mode::Green
        } else if str_eq(s, "blue") {
            Mode::Blue
        } else if str_eq(s, "alpha") {
            Mode::Alpha
        } else {
            Mode::Luma
        }
    }

    /// The threshold to use: the parsed one where there is one, else the
    /// mode's default.
    pub fn resolve_threshold(&self, parsed: Option<u8>) -> (t: u8)
        ensures
            t == match parsed {
                Some(v) => v,
                None => self.spec_default_threshold(),
            },
    {
        match parsed {
            Some(v) => v,
            None => self.default_threshold(),
        }
    }
}

impl Default for Bound {
    /// The bound used where none is given: a lower limit.
    fn default() -> (bound: Bound)
        ensures
            bound == Bound::Min,
    {
        Bound::Min
    }
}

impl Bound {
    /// Whether a string is the name of a bound.
    pub fn is_name(s: &str) -> (ok: bool)
        ensures
            ok == bound_named(s@).is_some(),
    {
        str_eq(s, "min") || str_eq(s, "max")
    }

    /// Reads a bound from its name. Any other string is a fault of the
    /// caller, who tests with `is_name` where the string is not known.
    pub fn from_str(s: &str) -> (out: Bound)
        requires
            bound_named(s@).is_some(),
        ensures
            Some(out) == bound_named(s@),
    {
        if str_eq(s, "min") {
            Bound::Min
        } else {
            Bound::Max
        }
    }
}

impl Config {
    /// Resolves a configuration from names that are known to be valid. The
    /// threshold text need not be: without a text, or with one that writes no
    /// byte, the mode's default is used.
    pub fn new(dir: &str, mode: &str, threshold: Option<&str>, bound: &str) -> (config: Config)
        requires
            direction_named(dir@).is_some(),
            mode_named(mode@).is_some(),
            bound_named(bound@).is_some(),
        ensures
            Some(config.direction) == direction_named(dir@),
            Some(config.mode) == mode_named(mode@),
            Some(config.bound) == bound_named(bound@),
            config.threshold == threshold_for(config.mode, text_of(threshold)),
            byte_of_text(threshold).is_none() ==> config.threshold == (if config.mode
                == Mode::Luma {
                50u8
            } else {
                100u8
            }),
    {
        let mode: Mode = Mode::from_str(mode);
        let parsed: Option<u8> = match threshold {
            Some(t) => parse_byte(t),
            None => None,
        };
        Config {
            direction: Direction::from_str(dir),
            mode,
            threshold: mode.resolve_threshold(parsed),
            bound: Bound::from_str(bound),
        }
    }

    /// Resolves a configuration from names that may be invalid: there is one
    /// exactly where all three names are valid.
    pub fn parse(dir: &str, mode: &str, threshold: Option<&str>, bound: &str) -> (out: Option<Config>)
        ensures
            out.is_some() <==> direction_named(dir@).is_some() && mode_named(mode@).is_some()
                && bound_named(bound@).is_some(),
            out matches Some(config) ==> {
                &&& Some(config.direction) == direction_named(dir@)
                &&& Some(config.mode) == mode_named(mode@)
                &&& Some(config.bound) == bound_named(bound@)
                &&& config.threshold == threshold_for(config.mode, text_of(threshold))
            },
    {
        if Direction::is_name(dir) && Mode::is_name(mode) && Bound::is_name(bound) {
            Some(Config::new(dir, mode, threshold, bound))
        } else {
            None
        }
    }
}

/// The byte that an optional text writes, if it is there and writes one.
pub open spec fn byte_of_text(s: Option<&str>) -> Option<u8> {
    match s {
        Some(t) => byte_of(t@),
        None => None,
    }
}

} // verus!
