//! The formats that a conversion reads and writes, as named on the command
//! line, and which conversions exist between them.

use crate::text::str_eq;
use vstd::prelude::*;

verus! {

/// A format of mesh assets.
#[derive(Clone, Copy, Debug, PartialEq, Eq)]
pub enum Format {
    /// The runtime model format, in the given version. The frame index is
    /// the frame to extract where the other format holds one frame only.
    Cem {
        /// Major and minor version.
        version: (u16, u16),
        /// The frame that an extraction takes.
        frame_index: usize,
    },
    /// The split-indexed text format.
    Obj,
}

/// A conversion that exists.
#[derive(Clone, Copy, Debug, PartialEq, Eq)]
pub enum Conversion {
    /// Text format to runtime model, version 2.
    ObjToCem,
    /// Runtime model, version 2, read and written again.
    CemToCem,
    /// One frame of a runtime model to the text format.
    CemToObj {
        /// The frame to write.
        frame_index: usize,
    },
}

impl Format {
    /// The format that a token names. The frame index defaults to 0.
    pub open spec fn parsed(format: Seq<char>, frame_index: Option<usize>) -> Option<Format> {
        let frame_index = match frame_index {
            Some(index) => index,
            None => 0,
        };
        if format == "cem1.3"@ {
            Some(Format::Cem { version: (1, 3), frame_index })
        } else if format == "cem2"@ || format == "cem"@ || format == "ssmf"@ {
            Some(Format::Cem { version: (2, 0), frame_index })
        } else if format == "obj"@ {
            Some(Format::Obj)
        } else {
            None
        }
    }

    /// Reads a format token: `cem1.3` for version 1.3 of the runtime model
    /// format; `cem2`, `cem` or `ssmf` for its version 2.0; `obj` for the text
    /// format. Any other token names no format.
    pub fn parse(format: &str, frame_index: Option<usize>) -> (parsed: Option<Self>)
        ensures
            parsed == Self::parsed(format@, frame_index),
    {
        let frame_index = match frame_index {
            Some(index) => index,
            None => 0,
        };
        if str_eq(format, "cem1.3") {
            Some(Format::Cem { version: (1, 3), frame_index })
        } else if str_eq(format, "cem2") {
            Some(Format::Cem { version: (2, 0), frame_index })
        } else if str_eq(format, "cem") {
            Some(Format::Cem { version: (2, 0), frame_index })
        } else if str_eq(format, "ssmf") {
            Some(Format::Cem { version: (2, 0), frame_index })
        } else if str_eq(format, "obj") {
            Some(Format::Obj)
        } else {
            None
        }
    }

    /// The format of the input: the runtime model format, version 2.0, where
    /// no token is given; else what the token names.
    pub open spec fn parsed_input(format: Option<Seq<char>>, frame_index: Option<usize>) -> Option<
        Format,
    > {
        match format {
            Some(token) => Self::parsed(token, frame_index),
            None => Some(
                Format::Cem {
                    version: (2, 0),
                    frame_index: match frame_index {
                        Some(index) => index,
                        None => 0,
                    },
                },
            ),
        }
    }

    /// Reads the optional token of the input format.
    pub fn parse_input(format: Option<&str>, frame_index: Option<usize>) -> (parsed: Option<Self>)
        ensures
            parsed == Self::parsed_input(
                match format {
                    Some(token) => Some(token@),
                    None => None,
                },
                frame_index,
            ),
    {
        match format {
            Some(token) => Self::parse(token, frame_index),
            None => Some(
                Format::Cem {
                    version: (2, 0),
                    frame_index: match frame_index {
                        Some(index) => index,
                        None => 0,
                    },
                },
            ),
        }
    }
}

/// The conversion from one format to another, where there is one.
pub open spec fn route(input_format: Format, format: Format) -> Option<Conversion> {
    match (input_format, format) {
        (Format::Obj, Format::Cem { version, frame_index }) => if version == (2u16, 0u16) {
            Some(Conversion::ObjToCem)
        } else {
            None
        },
        (
            Format::Cem { version: from, frame_index },
            Format::Cem { version: to, frame_index: _ },
        ) => if from == (2u16, 0u16) && to == (2u16, 0u16) {
            Some(Conversion::CemToCem)
        } else {
            None
        },
        (Format::Cem { version, frame_index }, Format::Obj) => Some(
            Conversion::CemToObj { frame_index },
        ),
        (Format::Obj, Format::Obj) => None,
    }
}

/// Picks the conversion from `input_format` to `format`. The text format is
/// read into version 2.0 of the runtime model only; a runtime model is
/// rewritten from version 2.0 to version 2.0 only; any runtime model yields
/// the text of the frame that its own frame index names.
pub fn conversion(input_format: Format, format: Format) -> (found: Option<Conversion>)
    ensures
        found == route(input_format, format),
{
    match (input_format, format) {
        (Format::Obj, Format::Cem { version, frame_index: _ }) => {
            if version.0 == 2 && version.1 == 0 {
                Some(Conversion::ObjToCem)
            } else {
                None
            }
        },
        (
            Format::Cem { version: from, frame_index: _ },
            Format::Cem { version: to, frame_index: _ },
        ) => {
            if from.0 == 2 && from.1 == 0 && to.0 == 2 && to.1 == 0 {
                Some(Conversion::CemToCem)
            } else {
                None
            }
        },
        (Format::Cem { version: _, frame_index }, Format::Obj) => Some(
            Conversion::CemToObj { frame_index },
        ),
        (Format::Obj, Format::Obj) => None,
    }
}

} // verus!
