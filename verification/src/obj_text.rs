//! The split-indexed text format, from the text itself: the parser of
//! `wavefront_obj` reads it, and the first object that it finds becomes a
//! flat model.

use crate::frames::{is_flat_model, MeshError};
use crate::mesh::{FlatVertex, Model, Object, Shape};
use crate::obj::{obj_to_cem, object_error};
use crate::text::{characters, decimal, put, put_decimal};
use vstd::prelude::*;
use wavefront_obj::obj as wavefront;

verus! {

/// A position or a normal of a parsed text: three numbers, which this crate
/// carries and never reads.
#[verifier::external_type_specification]
#[verifier::external_body]
pub struct ExPosition(wavefront_obj::obj::Vertex);

/// A texture coordinate of a parsed text: numbers that this crate carries
/// and never reads.
#[verifier::external_type_specification]
#[verifier::external_body]
pub struct ExTexturePosition(wavefront_obj::obj::TVertex);

/// An object as the parser of the text format hands it over.
pub type ParsedObject = Object<
    wavefront_obj::obj::Vertex,
    wavefront_obj::obj::TVertex,
    wavefront_obj::obj::Vertex,
>;

/// A flat model of parsed values.
pub type ParsedModel = Model<
    FlatVertex<wavefront_obj::obj::Vertex, wavefront_obj::obj::TVertex, wavefront_obj::obj::Vertex>,
>;

/// What the parser makes of a text: its objects in order, or the line and
/// the message of its first syntax error.
pub uninterp spec fn parsed(text: Seq<char>) -> Result<Seq<ParsedObject>, (usize, Seq<char>)>;

/// Whether a character is a decimal digit.
pub open spec fn is_digit(c: char) -> bool {
    '0' <= c <= '9'
}

/// The number of digits that follow one another from `from` on.
pub open spec fn digit_run(text: Seq<char>, from: int) -> nat
    decreases text.len() - from,
{
    if 0 <= from < text.len() && is_digit(text[from]) {
        1 + digit_run(text, from + 1)
    } else {
        0
    }
}

/// The number of digits from which on a run after a minus sign is too long.
/// A negative number with fewer digits, added to the number of bytes of a
/// text below `length_limit`, stays inside the range of a signed machine
/// integer: below 10^17 + 2^60 on a 64-bit machine, below 10^8 + 2^30 on a
/// 32-bit one.
pub open spec fn digit_limit() -> nat {
    if usize::MAX > 0xffff_ffff {
        18
    } else {
        9
    }
}

/// The number of characters from which on a text is too long. A character
/// takes four bytes at most.
pub open spec fn length_limit() -> nat {
    if usize::MAX > 0xffff_ffff {
        0x400_0000_0000_0000
    } else {
        0x1000_0000
    }
}

/// A text that the parser can be given: it is not too long, and no minus
/// sign in it is followed by too many digits.
pub open spec fn readable(text: Seq<char>) -> bool {
    &&& text.len() < length_limit()
    &&& forall|i: int|
        0 <= i < text.len() && #[trigger] text[i] == '-' ==> digit_run(text, i + 1) < digit_limit()
}

/// Decides `readable`.
pub fn is_readable(text: &str) -> (ok: bool)
    ensures
        ok == readable(text@),
{
    let wide = usize::MAX as u64 > 0xffff_ffff;
    let digits: usize = if wide {
        18
    } else {
        9
    };
    let chars = characters(text);
    if wide {
        if chars.len() as u64 >= 0x400_0000_0000_0000 {
            return false;
        }
    } else {
        if chars.len() >= 0x1000_0000 {
            return false;
        }
    }
    let mut i: usize = chars.len();
    let mut run: usize = 0;
    while i > 0
        invariant
            0 <= i <= chars.len(),
            chars@ == text@,
            digits == digit_limit(),
            run <= digits,
            run < digits ==> run == digit_run(text@, i as int),
            run == digits ==> digit_run(text@, i as int) >= digits,
            forall|k: int|
                i <= k < text@.len() && #[trigger] text@[k] == '-' ==> digit_run(text@, k + 1)
                    < digit_limit(),
        decreases i,
    {
        i = i - 1;
        let c = chars[i];
        if c == '-' {
            if run >= digits {
                return false;
            }
            run = 0;
        } else if '0' <= c && c <= '9' {
            if run < digits {
                run = run + 1;
            }
        } else {
            run = 0;
        }
    }
    true
}

/// A syntax error of a text: where it is, and what is wrong.
#[derive(Clone, Debug, PartialEq, Eq)]
pub struct SyntaxError {
    /// The line of the text on which the error is.
    pub line_number: usize,
    /// What the parser expected, and what it got.
    pub message: String,
}

/// Parses a text in the split-indexed format.
///
/// Trusted: `wavefront_obj::obj::parse`, whose objects are handed over field
/// by field. The contract claims one thing: what comes back, objects or
/// error, depends on the text alone; `parsed` is the name of it.
///
/// The parser resolves a negative face index `x` as `max as isize - x`,
/// where `max` is one more than the number of values read so far. A build
/// that checks overflow stops there if the sum leaves the range of `isize`.
/// `readable` leaves such texts out: `-x` has fewer digits than
/// `digit_limit`, and `max` exceeds the number of bytes of the text by one
/// at most.
#[verifier::external_body]
fn parse_objects(text: &str) -> (objects: Result<Vec<ParsedObject>, SyntaxError>)
    requires
        readable(text@),
    ensures
        match objects {
            Ok(objects) => parsed(text@) == Ok::<Seq<ParsedObject>, (usize, Seq<char>)>(
                objects@,
            ),
            Err(error) => parsed(text@) == Err::<Seq<ParsedObject>, (usize, Seq<char>)>(
                (error.line_number, error.message@),
            ),
        },
{
    match wavefront::parse(text) {
        Ok(set) => Ok(set.objects.into_iter().map(|object| Object {
            id: object.name,
            vertices: object.vertices,
            tex_vertices: object.tex_vertices,
            normals: object.normals,
            geometry: object.geometry.into_iter().map(|geometry| geometry.shapes.into_iter().map(
                |shape| match shape.primitive {
                    wavefront::Primitive::Point(a) => Shape::Point(a),
                    wavefront::Primitive::Line(a, b) => Shape::Line(a, b),
                    wavefront::Primitive::Triangle(a, b, c) => Shape::Triangle(a, b, c),
                }).collect()).collect(),
        }).collect()),
        Err(error) => Err(SyntaxError { line_number: error.line_number, message: error.message }),
    }
}

/// Why a text in the split-indexed format cannot become a flat model.
#[derive(Clone, Debug, PartialEq, Eq)]
pub enum TextError {
    /// The text is too long for the parser, or holds a minus sign that is
    /// followed by too many digits.
    Unreadable,
    /// The text is malformed.
    Syntax(SyntaxError),
    /// The text holds no object.
    NoObject,
    /// The first object of the text cannot become a flat model.
    Mesh(MeshError),
}

/// What a text becomes: the flat model of the first object that the parser
/// finds in it, or the reason why there is none.
pub open spec fn is_text_import(
    result: Result<ParsedModel, TextError>,
    text: Seq<char>,
    default_texture: wavefront_obj::obj::TVertex,
    default_normal: wavefront_obj::obj::Vertex,
) -> bool {
    if !readable(text) {
        result == Err::<ParsedModel, TextError>(TextError::Unreadable)
    } else {
        match parsed(text) {
            Err((line_number, message)) => result matches Err(TextError::Syntax(error))
                && error.line_number == line_number && error.message@ == message,
            Ok(objects) => if objects.len() == 0 {
                result == Err::<ParsedModel, TextError>(TextError::NoObject)
            } else {
                match result {
                    Ok(model) => is_flat_model(
                        &model,
                        &objects[0],
                        Seq::empty(),
                        default_texture,
                        default_normal,
                    ) && object_error(&objects[0]) is None,
                    Err(TextError::Mesh(error)) => object_error(&objects[0]) == Some(error),
                    Err(_) => false,
                }
            },
        }
    }
}

/// Converts a text in the split-indexed format into a flat model with one
/// frame: the text is parsed, and the first of its objects is converted as
/// `obj_to_cem` does.
pub fn obj_text_to_cem(
    text: &str,
    default_texture: wavefront_obj::obj::TVertex,
    default_normal: wavefront_obj::obj::Vertex,
) -> (result: Result<ParsedModel, TextError>)
    ensures
        is_text_import(result, text@, default_texture, default_normal),
{
    if !is_readable(text) {
        return Err(TextError::Unreadable);
    }
    let objects = match parse_objects(text) {
        Ok(objects) => objects,
        Err(error) => { return Err(TextError::Syntax(error)); },
    };
    if objects.len() == 0 {
        return Err(TextError::NoObject);
    }
    match obj_to_cem(&objects[0], default_texture, default_normal) {
        Ok(model) => Ok(model),
        Err(error) => Err(TextError::Mesh(error)),
    }
}

impl TextError {
    /// The diagnostic line of the error.
    pub open spec fn text(self) -> Seq<char> {
        match self {
            TextError::Unreadable =>
                "Error in OBJ file: too long, or a minus sign followed by too many digits"@,
            TextError::Syntax(error) => "Error in OBJ file on line "@ + decimal(
                error.line_number as nat,
            ) + ": "@ + error.message@,
            TextError::NoObject => "Error in OBJ file: no object"@,
            TextError::Mesh(error) => "Error in OBJ file: "@ + error.text(),
        }
    }

    /// Writes the diagnostic line of the error.
    pub fn message(&self) -> (line: String)
        ensures
            line@ == self.text(),
    {
        match self {
            TextError::Unreadable => String::from_str(
                "Error in OBJ file: too long, or a minus sign followed by too many digits",
            ),
            TextError::Syntax(error) => {
                let mut line = String::from_str("Error in OBJ file on line ");
                let head = Ghost(Seq::<char>::empty());
                let tail = Ghost(line@);
                assert(line@ =~= head@ + tail@);
                let tail = put_decimal(&mut line, error.line_number as u64, head, tail);
                let tail = put(&mut line, ": ", head, tail);
                let tail = put(&mut line, error.message.as_str(), head, tail);
                assert(line@ =~= tail@);
                line
            },
            TextError::NoObject => String::from_str("Error in OBJ file: no object"),
            TextError::Mesh(error) => {
                let mut line = String::from_str("Error in OBJ file: ");
                let reason = error.message();
                line.append(reason.as_str());
                line
            },
        }
    }
}

} // verus!
