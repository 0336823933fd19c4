//! What an import reports: warnings about content that is skipped, and the
//! errors that end it. Each has one diagnostic line.

use crate::frames::MeshError;
use crate::text::{decimal, push_decimal};
use vstd::prelude::*;

verus! {

/// A kind of coordinate transformation that a scene node may carry.
#[derive(Clone, Copy, Debug, PartialEq, Eq)]
pub enum Transformation {
    /// A `lookat` element.
    LookAt,
    /// A `matrix` element.
    Matrix,
    /// A `rotate` element.
    Rotate,
    /// A `scale` element.
    Scale,
    /// A `skew` element.
    Skew,
    /// A `translate` element.
    Translate,
}

/// Something in the document that the importer does not support. It is
/// reported and skipped; the import goes on.
#[derive(Clone, Copy, Debug, PartialEq, Eq)]
pub enum Warning {
    /// A morph with the method `RELATIVE`; it is read as `NORMALIZED`.
    RelativeMorph,
    /// A scene node of type `JOINT`; the node is skipped.
    JointNode,
    /// A transformation on a scene node; it is not applied.
    NodeTransformation(Transformation),
    /// An `instance_camera` in a scene node.
    InstanceCamera,
    /// An `instance_controller` in a scene node.
    InstanceController,
    /// An `instance_geometry` without a `url`.
    DegenerateInstanceGeometry,
    /// An `instance_light` in a scene node.
    InstanceLight,
    /// An `instance_node` in a scene node.
    InstanceNode,
    /// A scene node inside a scene node.
    NestedNode,
    /// More than one root geometry; the first is used.
    AdditionalRootGeometry,
}

/// Why a document cannot be imported.
#[derive(Clone, Copy, Debug, PartialEq, Eq)]
pub enum ImportError {
    /// The document has no `scene`.
    MissingScene,
    /// The `scene` has no `instance_visual_scene`.
    MissingVisualSceneInstance,
    /// The `instance_visual_scene` has no `url`.
    MissingSceneUrl,
    /// The document has no `library_visual_scenes`.
    MissingVisualScenes,
    /// No `visual_scene` has the identifier that the `scene` names.
    UnknownScene,
    /// No node of the scene instantiates a geometry.
    NoRootGeometry,
    /// No object has the identifier of the root geometry.
    MissingRootGeometry,
    /// No object has the identifier of a morph target.
    MissingFrameGeometry,
    /// The morph target at this place of the target list does not share the
    /// topology of the root geometry.
    TopologyMismatch(usize),
    /// The root geometry and its frames cannot become a flat model.
    Mesh(MeshError),
}

impl Transformation {
    /// The name of the element that carries the transformation.
    pub open spec fn name(self) -> Seq<char> {
        match self {
            Transformation::LookAt => "lookat"@,
            Transformation::Matrix => "matrix"@,
            Transformation::Rotate => "rotate"@,
            Transformation::Scale => "scale"@,
            Transformation::Skew => "skew"@,
            Transformation::Translate => "translate"@,
        }
    }

    /// Gives the name of the element that carries the transformation.
    pub fn element_name(&self) -> (name: &'static str)
        ensures
            name@ == self.name(),
    {
        match self {
            Transformation::LookAt => "lookat",
            Transformation::Matrix => "matrix",
            Transformation::Rotate => "rotate",
            Transformation::Scale => "scale",
            Transformation::Skew => "skew",
            Transformation::Translate => "translate",
        }
    }
}

impl Warning {
    /// The diagnostic line of the warning.
    pub open spec fn text(self) -> Seq<char> {
        match self {
            Warning::RelativeMorph =>
                "warning[collada]: unsupported morph method RELATIVE, treating it as NORMALIZED..."@,
            Warning::JointNode => "warning[collada]: unsupported node type JOINT, ignoring..."@,
            Warning::NodeTransformation(kind) => "warning[collada]: transformations on nodes are not supported yet (tried to use transformation type: "@
                + kind.name() + ")..."@,
            Warning::InstanceCamera => "warning[collada]: Ignoring instance_camera"@,
            Warning::InstanceController => "warning[collada]: Ignoring instance_controller"@,
            Warning::DegenerateInstanceGeometry =>
                "warning[collada]: degenerate <instance_geometry> is missing a url tag"@,
            Warning::InstanceLight => "warning[collada]: Lights are unsupported"@,
            Warning::InstanceNode => "warning[collada]: Ignoring instance_node"@,
            Warning::NestedNode => "warning[collada]: Nested nodes are unsupported"@,
            Warning::AdditionalRootGeometry =>
                "warning[collada]: ignoring additional root geometry for now, submodels are not supported yet"@,
        }
    }

    /// Writes the diagnostic line of the warning.
    pub fn message(&self) -> (line: String)
        ensures
            line@ == self.text(),
    {
        match self {
            Warning::RelativeMorph => String::from_str(
                "warning[collada]: unsupported morph method RELATIVE, treating it as NORMALIZED...",
            ),
            Warning::JointNode => String::from_str(
                "warning[collada]: unsupported node type JOINT, ignoring...",
            ),
            Warning::NodeTransformation(kind) => {
                let mut line = String::from_str(
                    "warning[collada]: transformations on nodes are not supported yet (tried to use transformation type: ",
                );
                line.append(kind.element_name());
                line.append(")...");
                line
            },
            Warning::InstanceCamera => String::from_str(
                "warning[collada]: Ignoring instance_camera",
            ),
            Warning::InstanceController => String::from_str(
                "warning[collada]: Ignoring instance_controller",
            ),
            Warning::DegenerateInstanceGeometry => String::from_str(
                "warning[collada]: degenerate <instance_geometry> is missing a url tag",
            ),
            Warning::InstanceLight => String::from_str("warning[collada]: Lights are unsupported"),
            Warning::InstanceNode => String::from_str("warning[collada]: Ignoring instance_node"),
            Warning::NestedNode => String::from_str(
                "warning[collada]: Nested nodes are unsupported",
            ),
            Warning::AdditionalRootGeometry => String::from_str(
                "warning[collada]: ignoring additional root geometry for now, submodels are not supported yet",
            ),
        }
    }
}

impl ImportError {
    /// The diagnostic line of the error.
    pub open spec fn text(self) -> Seq<char> {
        match self {
            ImportError::MissingScene => "Collada document requires a root scene"@,
            ImportError::MissingVisualSceneInstance =>
                "Collada document missing root visual scene"@,
            ImportError::MissingSceneUrl => "<instance_visual_scene> missing \"url\" attribute"@,
            ImportError::MissingVisualScenes => "Collada document has to have visual scenes"@,
            ImportError::UnknownScene =>
                "The scene named in <instance_visual_scene> does not exist"@,
            ImportError::NoRootGeometry => "No root geometry!"@,
            ImportError::MissingRootGeometry => "geometry library missing root geometry"@,
            ImportError::MissingFrameGeometry => "geometry library missing geometry frame"@,
            ImportError::TopologyMismatch(index) => "error[collada]: index "@ + decimal(
                index as nat,
            ) + " in the morph target sequence uses different geometry"@,
            ImportError::Mesh(error) => "error[collada]: "@ + error.text(),
        }
    }

    /// Writes the diagnostic line of the error.
    pub fn message(&self) -> (line: String)
        ensures
            line@ == self.text(),
    {
        match self {
            ImportError::MissingScene => String::from_str(
                "Collada document requires a root scene",
            ),
            ImportError::MissingVisualSceneInstance => String::from_str(
                "Collada document missing root visual scene",
            ),
            ImportError::MissingSceneUrl => String::from_str(
                "<instance_visual_scene> missing \"url\" attribute",
            ),
            ImportError::MissingVisualScenes => String::from_str(
                "Collada document has to have visual scenes",
            ),
            ImportError::UnknownScene => String::from_str(
                "The scene named in <instance_visual_scene> does not exist",
            ),
            ImportError::NoRootGeometry => String::from_str("No root geometry!"),
            ImportError::MissingRootGeometry => String::from_str(
                "geometry library missing root geometry",
            ),
            ImportError::MissingFrameGeometry => String::from_str(
                "geometry library missing geometry frame",
            ),
            ImportError::TopologyMismatch(index) => {
                let mut line = String::from_str("error[collada]: index ");
                push_decimal(&mut line, *index as u64);
                line.append(" in the morph target sequence uses different geometry");
                line
            },
            ImportError::Mesh(error) => {
                let mut line = String::from_str("error[collada]: ");
                let reason = error.message();
                line.append(reason.as_str());
                line
            },
        }
    }
}

} // verus!
