//! Conversion between a flat-indexed runtime mesh model and split-indexed
//! authoring formats.
//!
//! A split-indexed source references position, texture coordinate and normal
//! by independent indices at each face corner; the runtime model has one
//! index per vertex, and any number of frames that share one triangle
//! buffer. This crate holds what decides the outcome of a conversion:
//!
//! - [`dedup`] canonicalizes face corners into a minimal vertex list, in
//!   first-encounter order;
//! - [`topology`] shows that morph frames share the topology of their base
//!   before they may become frames of one model;
//! - [`frames`] materializes each frame from the one association list and
//!   assembles the model;
//! - [`collada_import`] resolves a markup document (scene, root geometry,
//!   morph links) over the element tree of [`document`], and reports what it
//!   skips as [`diagnostics`];
//! - [`obj`] and [`collada_export`] import and emit the two authoring
//!   grammars, and [`obj_text`] reads the text of the first with the parser
//!   of `wavefront_obj`;
//! - [`format`] names the formats of the command line and the conversions
//!   between them.
//!
//! Attribute values are carried through as type parameters or, for the
//! emitters, as numbers that are already written out: the crate never
//! computes with them. Rotating between the authoring and the runtime axes,
//! finding the pivot of a model and writing numbers as text is left to the
//! caller.

pub mod collada_export;
pub mod collada_import;
pub mod dedup;
pub mod diagnostics;
pub mod document;
pub mod format;
pub mod frames;
pub mod mesh;
pub mod obj;
pub mod obj_text;
pub mod sequences;
pub mod text;
pub mod topology;
