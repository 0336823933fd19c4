//! Import of a markup document: which geometry the scene instantiates, which
//! morph frames are linked to it, and the flat model that results.

use crate::diagnostics::{ImportError, Transformation, Warning};
use crate::document::{elements_named, owned_text, referent, slice_text, Element, Xml};
use crate::frames::{build_model, is_flat_model, lemma_flat_model_unique, mesh_error};
use crate::mesh::{models_agree, FlatVertex, Model, Object};
use crate::sequences::{lemma_take_all, lemma_take_step};
use crate::text::{split_whitespace, str_eq, words};
use crate::topology::{first_mismatch, validate};
use vstd::prelude::*;

verus! {

/// A reference without its leading `#`, if it has one.
pub open spec fn trimmed(name: Seq<char>) -> Seq<char> {
    if name.len() > 0 && name[0] == '#' {
        name.skip(1)
    } else {
        name
    }
}

/// Strips the `#` that marks a reference to an identifier in the same
/// document.
pub fn trim_hash(name: &str) -> (stripped: &str)
    ensures
        stripped@ == trimmed(name@),
{
    let len = name.unicode_len();
    if len > 0 && name.get_char(0) == '#' {
        let stripped = name.substring_char(1, len);
        assert(name@.skip(1) =~= name@.subrange(1, len as int));
        stripped
    } else {
        name
    }
}

/// The first of `elements` whose attribute `key` has the value `value`.
pub open spec fn first_with_attribute(
    elements: Seq<Element>,
    key: Seq<char>,
    value: Seq<char>,
) -> Option<Element>
    decreases elements.len(),
{
    if elements.len() == 0 {
        None
    } else {
        match first_with_attribute(elements.drop_last(), key, value) {
            Some(element) => Some(element),
            None => if elements.last().attribute(key, None) == Some(value) {
                Some(elements.last())
            } else {
                None
            },
        }
    }
}

/// An element found among the first `n` elements is the one found among all
/// of them.
proof fn lemma_first_with_attribute_prefix(
    elements: Seq<Element>,
    n: int,
    key: Seq<char>,
    value: Seq<char>,
)
    requires
        0 <= n <= elements.len(),
        first_with_attribute(elements.take(n), key, value) is Some,
    ensures
        first_with_attribute(elements, key, value) == first_with_attribute(
            elements.take(n),
            key,
            value,
        ),
    decreases elements.len() - n,
{
    if n < elements.len() {
        lemma_take_step(elements, n);
        lemma_first_with_attribute_prefix(elements, n + 1, key, value);
    } else {
        lemma_take_all(elements);
    }
}

/// Finds the first of `elements` whose attribute `key` has the value `value`.
pub fn find_with_attribute<'a>(
    elements: &Vec<&'a Element>,
    key: &str,
    value: &str,
) -> (found: Option<&'a Element>)
    ensures
        referent(found) == first_with_attribute(elements@.unref(), key@, value@),
{
    let ghost all = elements@.unref();
    let mut i: usize = 0;
    while i < elements.len()
        invariant
            0 <= i <= elements.len(),
            all == elements@.unref(),
            first_with_attribute(all.take(i as int), key@, value@) is None,
        decreases elements.len() - i,
    {
        proof {
            lemma_take_step(all, i as int);
        }
        let element = elements[i];
        let matches = match element.get_attribute(key, None) {
            Some(found) => str_eq(found, value),
            None => false,
        };
        if matches {
            proof {
                lemma_first_with_attribute_prefix(all, i + 1, key@, value@);
            }
            return Some(element);
        }
        i = i + 1;
    }
    proof {
        lemma_take_all(all);
    }
    None
}

/// The `input` child of `parent` with the given semantic.
pub open spec fn input_of(parent: Element, semantic: Seq<char>, ns: Option<Seq<char>>) -> Option<
    Element,
> {
    first_with_attribute(elements_named(parent.children@, "input"@, ns), "semantic"@, semantic)
}

/// Finds the `input` child of `parent` with the given semantic.
pub fn get_input<'a>(
    ns: Option<&str>,
    parent: &'a Element,
    semantic: &str,
) -> (input: Option<&'a Element>)
    ensures
        referent(input) == input_of(*parent, semantic@, slice_text(ns)),
{
    let inputs = parent.get_children("input", ns);
    find_with_attribute(&inputs, "semantic", semantic)
}

/// Whether `source` is a reference to the identifier of `element`.
pub open spec fn refers_to(source: Seq<char>, element: Element) -> bool {
    match element.attribute("id"@, None) {
        Some(id) => source == seq!['#'] + id,
        None => false,
    }
}

/// The first child element that `source` refers to.
pub open spec fn first_referred(children: Seq<Xml>, source: Seq<char>) -> Option<Element>
    decreases children.len(),
{
    if children.len() == 0 {
        None
    } else {
        match first_referred(children.drop_last(), source) {
            Some(element) => Some(element),
            None => match children.last() {
                Xml::ElementNode(element) => if refers_to(source, element) {
                    Some(element)
                } else {
                    None
                },
                _ => None,
            },
        }
    }
}

/// An element found among the first `n` children is the one found among all
/// of them.
proof fn lemma_first_referred_prefix(children: Seq<Xml>, n: int, source: Seq<char>)
    requires
        0 <= n <= children.len(),
        first_referred(children.take(n), source) is Some,
    ensures
        first_referred(children, source) == first_referred(children.take(n), source),
    decreases children.len() - n,
{
    if n < children.len() {
        lemma_take_step(children, n);
        lemma_first_referred_prefix(children, n + 1, source);
    } else {
        lemma_take_all(children);
    }
}

/// Decides `refers_to`.
fn is_referred(source: &str, element: &Element) -> (referred: bool)
    ensures
        referred == refers_to(source@, *element),
{
    match element.get_attribute("id", None) {
        Some(id) => {
            proof {
                reveal_strlit("#");
            }
            let mut reference = String::from_str("#");
            reference.append(id);
            assert(reference@ =~= seq!['#'] + id@);
            str_eq(source, reference.as_str())
        },
        None => false,
    }
}

/// Finds the first child element of `parent` that `source` refers to.
fn find_referred<'a>(parent: &'a Element, source: &str) -> (found: Option<&'a Element>)
    ensures
        referent(found) == first_referred(parent.children@, source@),
{
    let mut i: usize = 0;
    while i < parent.children.len()
        invariant
            0 <= i <= parent.children.len(),
            first_referred(parent.children@.take(i as int), source@) is None,
        decreases parent.children.len() - i,
    {
        proof {
            lemma_take_step(parent.children@, i as int);
        }
        match &parent.children[i] {
            Xml::ElementNode(element) => {
                if is_referred(source, element) {
                    proof {
                        lemma_first_referred_prefix(parent.children@, i + 1, source@);
                    }
                    return Some(element);
                }
            },
            _ => {},
        }
        i = i + 1;
    }
    proof {
        lemma_take_all(parent.children@);
    }
    None
}

/// The `source` element that an input stands for: the child of `parent` that
/// the input's `source` attribute refers to or, where that child is no
/// `source` element itself, the one that its own first `input` stands for.
/// At most `hops` references are followed.
pub open spec fn input_source(
    parent: Element,
    input: Element,
    ns: Option<Seq<char>>,
    hops: nat,
) -> Option<Element>
    decreases hops,
{
    if hops == 0 {
        None
    } else {
        match input.attribute("source"@, None) {
            None => None,
            Some(source) => match first_referred(parent.children@, source) {
                None => None,
                Some(element) => if element.name@ == "source"@ {
                    Some(element)
                } else {
                    match element.child("input"@, ns) {
                        None => None,
                        Some(next) => input_source(parent, next, ns, (hops - 1) as nat),
                    }
                },
            },
        }
    }
}

/// Resolves an input to its `source` element, following at most `hops`
/// references.
fn follow_source<'a>(
    ns: Option<&str>,
    parent_element: &'a Element,
    input_element: &'a Element,
    hops: usize,
) -> (source: Option<&'a Element>)
    ensures
        referent(source) == input_source(
            *parent_element,
            *input_element,
            slice_text(ns),
            hops as nat,
        ),
    decreases hops,
{
    if hops == 0 {
        return None;
    }
    let source_id = match input_element.get_attribute("source", None) {
        Some(source_id) => source_id,
        None => { return None; },
    };
    match find_referred(parent_element, source_id) {
        Some(element) => {
            if str_eq(element.name.as_str(), "source") {
                Some(element)
            } else {
                match element.get_child("input", ns) {
                    Some(input) => follow_source(ns, parent_element, input, hops - 1),
                    None => None,
                }
            }
        },
        None => None,
    }
}

/// Resolves an input to the `source` element that it stands for, following
/// references among the children of `parent_element`. A chain of references
/// that is longer than the number of those children would never end, and
/// resolves to nothing.
pub fn get_input_source<'a>(
    ns: Option<&str>,
    parent_element: &'a Element,
    input_element: &'a Element,
) -> (source: Option<&'a Element>)
    ensures
        referent(source) == input_source(
            *parent_element,
            *input_element,
            slice_text(ns),
            parent_element.children@.len(),
        ),
{
    follow_source(ns, parent_element, input_element, parent_element.children.len())
}

/// The texts of a sequence of strings.
pub open spec fn texts(strings: Seq<String>) -> Seq<Seq<char>> {
    Seq::new(strings.len(), |i: int| strings[i]@)
}

/// The text of the first character node among `children`.
pub open spec fn first_characters(children: Seq<Xml>) -> Option<Seq<char>>
    decreases children.len(),
{
    if children.len() == 0 {
        None
    } else {
        match first_characters(children.drop_last()) {
            Some(text) => Some(text),
            None => match children.last() {
                Xml::CharacterNode(text) => Some(text@),
                _ => None,
            },
        }
    }
}

/// A text found among the first `n` children is the one found among all of
/// them.
proof fn lemma_first_characters_prefix(children: Seq<Xml>, n: int)
    requires
        0 <= n <= children.len(),
        first_characters(children.take(n)) is Some,
    ensures
        first_characters(children) == first_characters(children.take(n)),
    decreases children.len() - n,
{
    if n < children.len() {
        lemma_take_step(children, n);
        lemma_first_characters_prefix(children, n + 1);
    } else {
        lemma_take_all(children);
    }
}

/// Finds the first character node among the children of `element`.
fn find_characters<'a>(element: &'a Element) -> (text: Option<&'a str>)
    ensures
        slice_text(text) == first_characters(element.children@),
{
    let mut i: usize = 0;
    while i < element.children.len()
        invariant
            0 <= i <= element.children.len(),
            first_characters(element.children@.take(i as int)) is None,
        decreases element.children.len() - i,
    {
        proof {
            lemma_take_step(element.children@, i as int);
        }
        match &element.children[i] {
            Xml::CharacterNode(text) => {
                proof {
                    lemma_first_characters_prefix(element.children@, i + 1);
                }
                return Some(text.as_str());
            },
            _ => {},
        }
        i = i + 1;
    }
    proof {
        lemma_take_all(element.children@);
    }
    None
}

/// The frames linked to a geometry: the geometry's identifier and, in order,
/// the identifiers of its morph targets.
#[derive(Clone, Debug, PartialEq, Eq)]
pub struct MorphLink {
    /// The identifier of the geometry that is morphed.
    pub name: String,
    /// The identifiers of the morph targets, in their declared order.
    pub targets: Vec<String>,
}

impl View for MorphLink {
    type V = (Seq<char>, Seq<Seq<char>>);

    open spec fn view(&self) -> (Seq<char>, Seq<Seq<char>>) {
        (self.name@, texts(self.targets@))
    }
}

/// The views of a sequence of links.
pub open spec fn link_views(links: Seq<MorphLink>) -> Seq<(Seq<char>, Seq<Seq<char>>)> {
    Seq::new(links.len(), |i: int| links[i]@)
}

/// What a `morph` element links: the geometry that its `source` refers to,
/// and the words of the reference array that its `MORPH_TARGET` input stands
/// for. Nothing where any part of that is missing.
pub open spec fn morph_link(morph: Element, ns: Option<Seq<char>>) -> Option<
    (Seq<char>, Seq<Seq<char>>),
> {
    match morph.attribute("source"@, None) {
        None => None,
        Some(source) => match morph.child("targets"@, ns) {
            None => None,
            Some(targets) => match input_of(targets, "MORPH_TARGET"@, ns) {
                None => None,
                Some(input) => match input_source(morph, input, ns, morph.children@.len()) {
                    None => None,
                    Some(target) => match target.child("IDREF_array"@, ns) {
                        None => None,
                        Some(array) => match first_characters(array.children@) {
                            None => None,
                            Some(text) => Some((trimmed(source), words(text))),
                        },
                    },
                },
            },
        },
    }
}

/// Reads what a `morph` element links.
pub fn read_morph(ns: Option<&str>, morph: &Element) -> (link: Option<MorphLink>)
    ensures
        match link {
            Some(link) => morph_link(*morph, slice_text(ns)) == Some(link@),
            None => morph_link(*morph, slice_text(ns)) is None,
        },
{
    let source = match morph.get_attribute("source", None) {
        Some(source) => source,
        None => { return None; },
    };
    let targets = match morph.get_child("targets", ns) {
        Some(targets) => targets,
        None => { return None; },
    };
    let input = match get_input(ns, targets, "MORPH_TARGET") {
        Some(input) => input,
        None => { return None; },
    };
    let target = match get_input_source(ns, morph, input) {
        Some(target) => target,
        None => { return None; },
    };
    let array = match target.get_child("IDREF_array", ns) {
        Some(array) => array,
        None => { return None; },
    };
    let text = match find_characters(array) {
        Some(text) => text,
        None => { return None; },
    };
    let name = String::from_str(trim_hash(source));
    let targets = split_whitespace(text);
    assert(texts(targets@) =~= words(text@));
    Some(MorphLink { name, targets })
}

/// The links of the morphs of `controllers`: of each controller its first
/// `morph` element, where it has one that links anything.
pub open spec fn controller_links(controllers: Seq<Element>, ns: Option<Seq<char>>) -> Seq<
    (Seq<char>, Seq<Seq<char>>),
>
    decreases controllers.len(),
{
    if controllers.len() == 0 {
        Seq::empty()
    } else {
        let earlier = controller_links(controllers.drop_last(), ns);
        match controllers.last().child("morph"@, ns) {
            Some(morph) => match morph_link(morph, ns) {
                Some(link) => earlier.push(link),
                None => earlier,
            },
            None => earlier,
        }
    }
}

/// One warning for each controller whose first `morph` element has the
/// method `RELATIVE`.
pub open spec fn controller_warnings(controllers: Seq<Element>, ns: Option<Seq<char>>) -> Seq<
    Warning,
>
    decreases controllers.len(),
{
    if controllers.len() == 0 {
        Seq::empty()
    } else {
        let earlier = controller_warnings(controllers.drop_last(), ns);
        match controllers.last().child("morph"@, ns) {
            Some(morph) => if morph.attribute("method"@, None) == Some("RELATIVE"@) {
                earlier.push(Warning::RelativeMorph)
            } else {
                earlier
            },
            None => earlier,
        }
    }
}

/// The controllers of a document: the `controller` children of its first
/// `library_controllers`.
pub open spec fn controllers_of(root: Element) -> Seq<Element> {
    match root.child("library_controllers"@, owned_text(root.ns)) {
        Some(library) => elements_named(library.children@, "controller"@, owned_text(root.ns)),
        None => Seq::empty(),
    }
}

/// The namespace of a document, as the queries take it.
pub fn namespace(root: &Element) -> (ns: Option<&str>)
    ensures
        slice_text(ns) == owned_text(root.ns),
{
    match &root.ns {
        Some(ns) => Some(ns.as_str()),
        None => None,
    }
}

/// Finds which frames are attached to each geometry, and reports each morph
/// with an unsupported method to `sink`.
pub fn morph_links(root: &Element, sink: &mut Vec<Warning>) -> (links: Vec<MorphLink>)
    ensures
        link_views(links@) == controller_links(controllers_of(*root), owned_text(root.ns)),
        final(sink)@ == old(sink)@ + controller_warnings(
            controllers_of(*root),
            owned_text(root.ns),
        ),
{
    let ns = namespace(root);
    let mut links: Vec<MorphLink> = Vec::new();
    let controllers = match root.get_child("library_controllers", ns) {
        Some(library) => library.get_children("controller", ns),
        None => Vec::new(),
    };
    let ghost all = controllers_of(*root);
    assert(controllers@.unref() =~= all);
    let mut i: usize = 0;
    while i < controllers.len()
        invariant
            0 <= i <= controllers.len(),
            slice_text(ns) == owned_text(root.ns),
            controllers@.unref() == all,
            link_views(links@) == controller_links(all.take(i as int), owned_text(root.ns)),
            sink@ == old(sink)@ + controller_warnings(all.take(i as int), owned_text(root.ns)),
        decreases controllers.len() - i,
    {
        proof {
            lemma_take_step(all, i as int);
            assert(all[i as int] == *controllers@[i as int]);
        }
        let ghost links_before = link_views(links@);
        let ghost sink_before = sink@;
        match controllers[i].get_child("morph", ns) {
            Some(morph) => {
                let relative = match morph.get_attribute("method", None) {
                    Some(method) => str_eq(method, "RELATIVE"),
                    None => false,
                };
                if relative {
                    sink.push(Warning::RelativeMorph);
                    assert(sink@ =~= old(sink)@ + controller_warnings(
                        all.take(i + 1),
                        owned_text(root.ns),
                    ));
                }
                match read_morph(ns, morph) {
                    Some(link) => {
                        links.push(link);
                        assert(link_views(links@) =~= links_before.push(link@));
                    },
                    None => {
                        assert(link_views(links@) =~= links_before);
                    },
                }
            },
            None => {
                assert(link_views(links@) =~= links_before);
            },
        }
        i = i + 1;
    }
    proof {
        lemma_take_all(all);
    }
    links
}

/// The targets that the last link for `name` names.
pub open spec fn linked_targets(links: Seq<(Seq<char>, Seq<Seq<char>>)>, name: Seq<char>) -> Option<
    Seq<Seq<char>>,
>
    decreases links.len(),
{
    if links.len() == 0 {
        None
    } else if links.last().0 == name {
        Some(links.last().1)
    } else {
        linked_targets(links.drop_last(), name)
    }
}

/// Finds the targets linked to `name`. Where several links name it, the last
/// one counts.
pub fn find_link<'a>(links: &'a Vec<MorphLink>, name: &str) -> (targets: Option<&'a Vec<String>>)
    ensures
        match targets {
            Some(targets) => linked_targets(link_views(links@), name@) == Some(texts(targets@)),
            None => linked_targets(link_views(links@), name@) is None,
        },
{
    let ghost all = link_views(links@);
    let mut i: usize = links.len();
    proof {
        lemma_take_all(all);
    }
    while i > 0
        invariant
            0 <= i <= links.len(),
            all == link_views(links@),
            linked_targets(all, name@) == linked_targets(all.take(i as int), name@),
        decreases i,
    {
        proof {
            lemma_take_step(all, i - 1);
        }
        i = i - 1;
        if str_eq(links[i].name.as_str(), name) {
            return Some(&links[i].targets);
        }
    }
    None
}

/// The identifier of the visual scene that the document's `scene` names.
pub open spec fn primary_scene(root: Element) -> Result<Seq<char>, ImportError> {
    match root.child("scene"@, owned_text(root.ns)) {
        None => Err(ImportError::MissingScene),
        Some(scene) => match scene.child("instance_visual_scene"@, owned_text(root.ns)) {
            None => Err(ImportError::MissingVisualSceneInstance),
            Some(instance) => match instance.attribute("url"@, None) {
                None => Err(ImportError::MissingSceneUrl),
                Some(url) => Ok(trimmed(url)),
            },
        },
    }
}

/// The nodes of the visual scene that the document's `scene` names.
pub open spec fn scene_nodes(root: Element) -> Result<Seq<Element>, ImportError> {
    match primary_scene(root) {
        Err(error) => Err(error),
        Ok(scene) => match root.child("library_visual_scenes"@, owned_text(root.ns)) {
            None => Err(ImportError::MissingVisualScenes),
            Some(library) => match first_with_attribute(
                elements_named(library.children@, "visual_scene"@, owned_text(root.ns)),
                "id"@,
                scene,
            ) {
                None => Err(ImportError::UnknownScene),
                Some(visual_scene) => Ok(
                    elements_named(visual_scene.children@, "node"@, owned_text(root.ns)),
                ),
            },
        },
    }
}

/// Finds the nodes of the visual scene that the document's `scene` names.
pub fn find_scene_nodes<'a>(root: &'a Element) -> (nodes: Result<Vec<&'a Element>, ImportError>)
    ensures
        match nodes {
            Ok(nodes) => scene_nodes(*root) == Ok::<Seq<Element>, ImportError>(
                nodes@.unref(),
            ),
            Err(error) => scene_nodes(*root) == Err::<Seq<Element>, ImportError>(error),
        },
{
    let ns = namespace(root);
    let scene = match root.get_child("scene", ns) {
        Some(scene) => scene,
        None => { return Err(ImportError::MissingScene); },
    };
    let instance = match scene.get_child("instance_visual_scene", ns) {
        Some(instance) => instance,
        None => { return Err(ImportError::MissingVisualSceneInstance); },
    };
    let url = match instance.get_attribute("url", None) {
        Some(url) => url,
        None => { return Err(ImportError::MissingSceneUrl); },
    };
    let primary_scene = trim_hash(url);
    let library = match root.get_child("library_visual_scenes", ns) {
        Some(library) => library,
        None => { return Err(ImportError::MissingVisualScenes); },
    };
    let scenes = library.get_children("visual_scene", ns);
    match find_with_attribute(&scenes, "id", primary_scene) {
        Some(visual_scene) => Ok(visual_scene.get_children("node", ns)),
        None => Err(ImportError::UnknownScene),
    }
}

/// What the importer makes of a child element of a scene node.
#[derive(Clone, Copy, Debug, PartialEq, Eq)]
pub enum NodeContent {
    /// Nothing to do.
    Ignored,
    /// Content that is reported and skipped.
    Unsupported(Warning),
    /// A geometry instantiation.
    Geometry,
}

/// What the importer makes of a child element with the given name.
pub open spec fn classify(name: Seq<char>) -> NodeContent {
    if name == "asset"@ {
        NodeContent::Ignored
    } else if name == "lookat"@ {
        NodeContent::Unsupported(Warning::NodeTransformation(Transformation::LookAt))
    } else if name == "matrix"@ {
        NodeContent::Unsupported(Warning::NodeTransformation(Transformation::Matrix))
    } else if name == "rotate"@ {
        NodeContent::Unsupported(Warning::NodeTransformation(Transformation::Rotate))
    } else if name == "scale"@ {
        NodeContent::Unsupported(Warning::NodeTransformation(Transformation::Scale))
    } else if name == "skew"@ {
        NodeContent::Unsupported(Warning::NodeTransformation(Transformation::Skew))
    } else if name == "translate"@ {
        NodeContent::Unsupported(Warning::NodeTransformation(Transformation::Translate))
    } else if name == "instance_camera"@ {
        NodeContent::Unsupported(Warning::InstanceCamera)
    } else if name == "instance_controller"@ {
        NodeContent::Unsupported(Warning::InstanceController)
    } else if name == "instance_geometry"@ {
        NodeContent::Geometry
    } else if name == "instance_light"@ {
        NodeContent::Unsupported(Warning::InstanceLight)
    } else if name == "instance_node"@ {
        NodeContent::Unsupported(Warning::InstanceNode)
    } else if name == "node"@ {
        NodeContent::Unsupported(Warning::NestedNode)
    } else {
        NodeContent::Ignored
    }
}

/// Decides `classify`.
pub fn classify_name(name: &str) -> (content: NodeContent)
    ensures
        content == classify(name@),
{
    if str_eq(name, "asset") {
        NodeContent::Ignored
    } else if str_eq(name, "lookat") {
        NodeContent::Unsupported(Warning::NodeTransformation(Transformation::LookAt))
    } else if str_eq(name, "matrix") {
        NodeContent::Unsupported(Warning::NodeTransformation(Transformation::Matrix))
    } else if str_eq(name, "rotate") {
        NodeContent::Unsupported(Warning::NodeTransformation(Transformation::Rotate))
    } else if str_eq(name, "scale") {
        NodeContent::Unsupported(Warning::NodeTransformation(Transformation::Scale))
    } else if str_eq(name, "skew") {
        NodeContent::Unsupported(Warning::NodeTransformation(Transformation::Skew))
    } else if str_eq(name, "translate") {
        NodeContent::Unsupported(Warning::NodeTransformation(Transformation::Translate))
    } else if str_eq(name, "instance_camera") {
        NodeContent::Unsupported(Warning::InstanceCamera)
    } else if str_eq(name, "instance_controller") {
        NodeContent::Unsupported(Warning::InstanceController)
    } else if str_eq(name, "instance_geometry") {
        NodeContent::Geometry
    } else if str_eq(name, "instance_light") {
        NodeContent::Unsupported(Warning::InstanceLight)
    } else if str_eq(name, "instance_node") {
        NodeContent::Unsupported(Warning::InstanceNode)
    } else if str_eq(name, "node") {
        NodeContent::Unsupported(Warning::NestedNode)
    } else {
        NodeContent::Ignored
    }
}

/// The warning that a child of a scene node gives rise to, if any.
pub open spec fn content_warning(child: Xml) -> Option<Warning> {
    match child {
        Xml::ElementNode(element) => match classify(element.name@) {
            NodeContent::Ignored => None,
            NodeContent::Unsupported(warning) => Some(warning),
            NodeContent::Geometry => if element.attribute("url"@, None) is None {
                Some(Warning::DegenerateInstanceGeometry)
            } else {
                None
            },
        },
        _ => None,
    }
}

/// The geometry that a child of a scene node instantiates, if any.
pub open spec fn content_geometry(child: Xml) -> Option<Seq<char>> {
    match child {
        Xml::ElementNode(element) => match classify(element.name@) {
            NodeContent::Geometry => match element.attribute("url"@, None) {
                Some(url) => Some(trimmed(url)),
                None => None,
            },
            _ => None,
        },
        _ => None,
    }
}

/// The warnings that the children of one scene node give rise to, in
/// document order.
pub open spec fn children_warnings(children: Seq<Xml>) -> Seq<Warning>
    decreases children.len(),
{
    if children.len() == 0 {
        Seq::empty()
    } else {
        let earlier = children_warnings(children.drop_last());
        match content_warning(children.last()) {
            Some(warning) => earlier.push(warning),
            None => earlier,
        }
    }
}

/// The geometries that the children of one scene node instantiate, in
/// document order.
pub open spec fn children_geometry(children: Seq<Xml>) -> Seq<Seq<char>>
    decreases children.len(),
{
    if children.len() == 0 {
        Seq::empty()
    } else {
        let earlier = children_geometry(children.drop_last());
        match content_geometry(children.last()) {
            Some(name) => earlier.push(name),
            None => earlier,
        }
    }
}

/// Whether a scene node is a skeletal joint.
pub open spec fn is_joint(node: Element) -> bool {
    node.attribute("type"@, None) == Some("JOINT"@)
}

/// The warnings that the scene nodes give rise to: one for each joint, which
/// is then skipped, and those of the children of every other node.
pub open spec fn node_warnings(nodes: Seq<Element>) -> Seq<Warning>
    decreases nodes.len(),
{
    if nodes.len() == 0 {
        Seq::empty()
    } else {
        let earlier = node_warnings(nodes.drop_last());
        if is_joint(nodes.last()) {
            earlier.push(Warning::JointNode)
        } else {
            earlier + children_warnings(nodes.last().children@)
        }
    }
}

/// The geometries that the scene nodes instantiate, joints left out.
pub open spec fn node_geometry(nodes: Seq<Element>) -> Seq<Seq<char>>
    decreases nodes.len(),
{
    if nodes.len() == 0 {
        Seq::empty()
    } else {
        let earlier = node_geometry(nodes.drop_last());
        if is_joint(nodes.last()) {
            earlier
        } else {
            earlier + children_geometry(nodes.last().children@)
        }
    }
}

/// Scans the scene nodes for geometry instantiations. Unsupported content
/// is reported to `sink` and skipped.
pub fn root_geometry(nodes: &Vec<&Element>, sink: &mut Vec<Warning>) -> (names: Vec<String>)
    ensures
        texts(names@) == node_geometry(nodes@.unref()),
        final(sink)@ == old(sink)@ + node_warnings(nodes@.unref()),
{
    let ghost all = nodes@.unref();
    let mut names: Vec<String> = Vec::new();
    let mut n: usize = 0;
    assert(texts(names@) =~= node_geometry(all.take(0)));
    assert(sink@ =~= old(sink)@ + node_warnings(all.take(0)));
    while n < nodes.len()
        invariant
            0 <= n <= nodes.len(),
            all == nodes@.unref(),
            texts(names@) == node_geometry(all.take(n as int)),
            sink@ == old(sink)@ + node_warnings(all.take(n as int)),
        decreases nodes.len() - n,
    {
        proof {
            lemma_take_step(all, n as int);
            assert(all[n as int] == *nodes@[n as int]);
        }
        let node = nodes[n];
        let ghost names_before = texts(names@);
        let ghost sink_before = sink@;
        let joint = match node.get_attribute("type", None) {
            Some(kind) => str_eq(kind, "JOINT"),
            None => false,
        };
        if joint {
            sink.push(Warning::JointNode);
            assert(sink@ =~= old(sink)@ + node_warnings(all.take(n + 1)));
        } else {
            let mut c: usize = 0;
            assert(texts(names@) =~= names_before + children_geometry(node.children@.take(0)));
            assert(sink@ =~= sink_before + children_warnings(node.children@.take(0)));
            while c < node.children.len()
                invariant
                    0 <= c <= node.children.len(),
                    texts(names@) == names_before + children_geometry(
                        node.children@.take(c as int),
                    ),
                    sink@ == sink_before + children_warnings(node.children@.take(c as int)),
                decreases node.children.len() - c,
            {
                proof {
                    lemma_take_step(node.children@, c as int);
                }
                let ghost inner_names = texts(names@);
                let ghost inner_sink = sink@;
                match &node.children[c] {
                    Xml::ElementNode(element) => {
                        match classify_name(element.name.as_str()) {
                            NodeContent::Ignored => {},
                            NodeContent::Unsupported(warning) => {
                                sink.push(warning);
                            },
                            NodeContent::Geometry => {
                                match element.get_attribute("url", None) {
                                    Some(url) => {
                                        names.push(String::from_str(trim_hash(url)));
                                        assert(texts(names@) =~= inner_names.push(
                                            trimmed(url@),
                                        ));
                                    },
                                    None => {
                                        sink.push(Warning::DegenerateInstanceGeometry);
                                    },
                                }
                            },
                        }
                    },
                    _ => {},
                }
                proof {
                    let child = node.children@[c as int];
                    assert(texts(names@) == match content_geometry(child) {
                        Some(name) => inner_names.push(name),
                        None => inner_names,
                    });
                    assert(sink@ == match content_warning(child) {
                        Some(warning) => inner_sink.push(warning),
                        None => inner_sink,
                    });
                    assert(texts(names@) =~= names_before + children_geometry(
                        node.children@.take(c + 1),
                    ));
                    assert(sink@ =~= sink_before + children_warnings(
                        node.children@.take(c + 1),
                    ));
                }
                c = c + 1;
            }
            proof {
                lemma_take_all(node.children@);
            }
            assert(sink@ =~= old(sink)@ + node_warnings(all.take(n + 1)));
        }
        n = n + 1;
    }
    proof {
        lemma_take_all(all);
    }
    names
}

/// The place of the object with the given identifier. Where several objects
/// share it, the last one counts.
pub open spec fn object_named<P, T, N>(objects: Seq<Object<P, T, N>>, id: Seq<char>) -> Option<int>
    decreases objects.len(),
{
    if objects.len() == 0 {
        None
    } else if objects.last().id@ == id {
        Some(objects.len() - 1)
    } else {
        object_named(objects.drop_last(), id)
    }
}

/// Finds the object with the given identifier.
pub fn find_object<P, T, N>(objects: &Vec<Object<P, T, N>>, id: &str) -> (found: Option<usize>)
    ensures
        match found {
            Some(index) => object_named(objects@, id@) == Some(index as int) && index
                < objects.len(),
            None => object_named(objects@, id@) is None,
        },
{
    let mut i: usize = objects.len();
    proof {
        lemma_take_all(objects@);
    }
    while i > 0
        invariant
            0 <= i <= objects.len(),
            object_named(objects@, id@) == object_named(objects@.take(i as int), id@),
        decreases i,
    {
        proof {
            lemma_take_step(objects@, i - 1);
        }
        i = i - 1;
        if str_eq(objects[i].id.as_str(), id) {
            return Some(i);
        }
    }
    None
}

/// The objects at the given places.
pub open spec fn selected<P, T, N>(objects: Seq<Object<P, T, N>>, places: Seq<int>) -> Seq<
    Object<P, T, N>,
> {
    Seq::new(places.len(), |k: int| objects[places[k]])
}

/// The places of the objects that the targets name, in the order of the
/// targets. Nothing where a target names no object.
pub open spec fn frame_objects<P, T, N>(
    objects: Seq<Object<P, T, N>>,
    targets: Seq<Seq<char>>,
) -> Option<Seq<int>>
    decreases targets.len(),
{
    if targets.len() == 0 {
        Some(Seq::empty())
    } else {
        match frame_objects(objects, targets.drop_last()) {
            None => None,
            Some(earlier) => match object_named(objects, targets.last()) {
                Some(place) => Some(earlier.push(place)),
                None => None,
            },
        }
    }
}

/// A target without an object among the first `n` targets leaves the whole
/// list without frames.
proof fn lemma_frame_objects_prefix<P, T, N>(
    objects: Seq<Object<P, T, N>>,
    targets: Seq<Seq<char>>,
    n: int,
)
    requires
        0 <= n <= targets.len(),
        frame_objects(objects, targets.take(n)) is None,
    ensures
        frame_objects(objects, targets) is None,
    decreases targets.len() - n,
{
    if n < targets.len() {
        lemma_take_step(targets, n);
        lemma_frame_objects_prefix(objects, targets, n + 1);
    } else {
        lemma_take_all(targets);
    }
}

/// Finds the objects that the targets name.
pub fn find_frames<'a, P, T, N>(
    objects: &'a Vec<Object<P, T, N>>,
    targets: &Vec<String>,
) -> (frames: Option<Vec<&'a Object<P, T, N>>>)
    ensures
        match frames {
            Some(frames) => {
                &&& frame_objects(objects@, texts(targets@)) is Some
                &&& frames@.unref() == selected(
                    objects@,
                    frame_objects(objects@, texts(targets@))->0,
                )
            },
            None => frame_objects(objects@, texts(targets@)) is None,
        },
{
    let ghost names = texts(targets@);
    let mut frames: Vec<&'a Object<P, T, N>> = Vec::new();
    let mut i: usize = 0;
    assert(frames@.unref() =~= selected(objects@, frame_objects(objects@, names.take(0))->0));
    while i < targets.len()
        invariant
            0 <= i <= targets.len(),
            names == texts(targets@),
            frame_objects(objects@, names.take(i as int)) is Some,
            frames@.unref() == selected(
                objects@,
                frame_objects(objects@, names.take(i as int))->0,
            ),
        decreases targets.len() - i,
    {
        proof {
            lemma_take_step(names, i as int);
        }
        let ghost before = frames@.unref();
        let ghost earlier = frame_objects(objects@, names.take(i as int))->0;
        assert(names[i as int] == targets@[i as int]@);
        match find_object(objects, targets[i].as_str()) {
            Some(place) => {
                frames.push(&objects[place]);
                assert(frame_objects(objects@, names.take(i + 1)) == Some(
                    earlier.push(place as int),
                ));
                assert(frames@.unref() =~= before.push(objects@[place as int]));
                assert(frames@.unref() =~= selected(
                    objects@,
                    frame_objects(objects@, names.take(i + 1))->0,
                ));
            },
            None => {
                proof {
                    lemma_frame_objects_prefix(objects@, names, i + 1);
                }
                return None;
            },
        }
        i = i + 1;
    }
    proof {
        lemma_take_all(names);
    }
    Some(frames)
}

/// Which objects of a document become the model: the place of the root
/// geometry among the objects, and the places of its morph frames in the
/// order of the target list.
pub struct ImportPlan {
    /// The place of the root geometry among the objects.
    pub base: int,
    /// The places of the morph frames among the objects.
    pub frames: Seq<int>,
}

/// The morph targets linked to the geometry `name`; none where no morph
/// names it.
pub open spec fn targets_of(root: Element, name: Seq<char>) -> Seq<Seq<char>> {
    match linked_targets(controller_links(controllers_of(root), owned_text(root.ns)), name) {
        Some(targets) => targets,
        None => Seq::empty(),
    }
}

/// Resolves a document against its objects: the first geometry that the
/// primary scene instantiates is the root; the targets of the morph linked
/// to it are its frames, which must share its topology.
pub open spec fn import_plan<P, T, N>(root: Element, objects: Seq<Object<P, T, N>>) -> Result<
    ImportPlan,
    ImportError,
> {
    match scene_nodes(root) {
        Err(error) => Err(error),
        Ok(nodes) => {
            let roots = node_geometry(nodes);
            if roots.len() == 0 {
                Err(ImportError::NoRootGeometry)
            } else {
                match object_named(objects, roots[0]) {
                    None => Err(ImportError::MissingRootGeometry),
                    Some(base) => match frame_objects(objects, targets_of(root, roots[0])) {
                        None => Err(ImportError::MissingFrameGeometry),
                        Some(frames) => match first_mismatch(
                            &objects[base],
                            selected(objects, frames),
                        ) {
                            Some(index) => Err(ImportError::TopologyMismatch(index as usize)),
                            None => Ok(ImportPlan { base, frames }),
                        },
                    },
                }
            }
        },
    }
}

/// Why the import of a document fails, if it does.
pub open spec fn import_error<P, T, N>(root: Element, objects: Seq<Object<P, T, N>>) -> Option<
    ImportError,
> {
    match import_plan(root, objects) {
        Err(error) => Some(error),
        Ok(plan) => match mesh_error(&objects[plan.base], selected(objects, plan.frames)) {
            Some(error) => Some(ImportError::Mesh(error)),
            None => None,
        },
    }
}

/// Everything that the import of a document reports: first the unsupported
/// morphs, then the unsupported content of the scene nodes, then any surplus
/// of root geometries. A document without a resolvable scene reports the
/// morphs only.
pub open spec fn import_warnings(root: Element) -> Seq<Warning> {
    controller_warnings(controllers_of(root), owned_text(root.ns)) + match scene_nodes(root) {
        Err(_) => Seq::empty(),
        Ok(nodes) => node_warnings(nodes) + if node_geometry(nodes).len() > 1 {
            seq![Warning::AdditionalRootGeometry]
        } else {
            Seq::empty()
        },
    }
}

/// What an import yields: the flat model, and the place among the objects of
/// the one that became its base frame.
#[derive(Clone, Debug, PartialEq)]
pub struct Imported<P, T, N> {
    /// The place among the objects of the one that became the base frame.
    pub base: usize,
    /// The flat model.
    pub model: Model<FlatVertex<P, T, N>>,
}

/// `imported` is what the document and its objects become: it names the base
/// object of the plan, and its model is the flat model of that object and of
/// the frames of the plan.
pub open spec fn is_import<P, T, N>(
    imported: &Imported<P, T, N>,
    root: Element,
    objects: Seq<Object<P, T, N>>,
    default_texture: T,
    default_normal: N,
) -> bool {
    import_plan(root, objects) matches Ok(plan) && imported.base == plan.base && is_flat_model(
        &imported.model,
        &objects[plan.base],
        selected(objects, plan.frames),
        default_texture,
        default_normal,
    )
}

/// An import is determined by its input: two imports of the same document,
/// objects and defaults name the same base object and hold the same model.
pub proof fn lemma_import_unique<P, T, N>(
    first: &Imported<P, T, N>,
    second: &Imported<P, T, N>,
    root: Element,
    objects: Seq<Object<P, T, N>>,
    default_texture: T,
    default_normal: N,
)
    requires
        is_import(first, root, objects, default_texture, default_normal),
        is_import(second, root, objects, default_texture, default_normal),
    ensures
        first.base == second.base,
        models_agree(&first.model, &second.model),
{
    let plan = import_plan(root, objects)->Ok_0;
    lemma_flat_model_unique(
        &first.model,
        &second.model,
        &objects[plan.base],
        selected(objects, plan.frames),
        default_texture,
        default_normal,
    );
}

/// Converts a document and the objects parsed from it into the flat model.
///
/// The first geometry instantiated by the primary scene becomes the base
/// frame. The targets of the morph linked to it, in their declared order,
/// become further frames once they are shown to share its topology. The
/// faces are deduplicated once, against the base; every frame is
/// materialized from that one association list and shares the one triangle
/// buffer. Whatever is unsupported but harmless is reported to `sink`.
pub fn convert<P: Copy, T: Copy, N: Copy>(
    root: &Element,
    objects: &Vec<Object<P, T, N>>,
    default_texture: T,
    default_normal: N,
    sink: &mut Vec<Warning>,
) -> (result: Result<Imported<P, T, N>, ImportError>)
    ensures
        final(sink)@ == old(sink)@ + import_warnings(*root),
        match result {
            Ok(imported) => {
                &&& import_error(*root, objects@) is None
                &&& is_import(&imported, *root, objects@, default_texture, default_normal)
            },
            Err(error) => import_error(*root, objects@) == Some(error),
        },
{
    // The morphs are read first: they are reported even where the scene is missing.
    let morph_links = morph_links(root, sink);
    let nodes = match find_scene_nodes(root) {
        Ok(nodes) => nodes,
        Err(error) => {
            assert(sink@ =~= old(sink)@ + import_warnings(*root));
            return Err(error);
        },
    };
    let root_geometry = root_geometry(&nodes, sink);
    assert(texts(root_geometry@).len() == root_geometry@.len());
    if root_geometry.len() == 0 {
        assert(sink@ =~= old(sink)@ + import_warnings(*root));
        return Err(ImportError::NoRootGeometry);
    } else if root_geometry.len() > 1 {
        sink.push(Warning::AdditionalRootGeometry);
    }
    assert(sink@ =~= old(sink)@ + import_warnings(*root));
    let root_name = root_geometry[0].as_str();
    assert(root_name@ == texts(root_geometry@)[0]);
    // The document is resolved; what follows works on the objects alone.
    let place = match find_object(objects, root_name) {
        Some(place) => place,
        None => { return Err(ImportError::MissingRootGeometry); },
    };
    let base = &objects[place];
    let object_frames = match find_link(&morph_links, root_name) {
        Some(targets) => match find_frames(objects, targets) {
            Some(frames) => frames,
            None => { return Err(ImportError::MissingFrameGeometry); },
        },
        None => {
            let frames: Vec<&Object<P, T, N>> = Vec::new();
            assert(texts(Seq::<String>::empty()) =~= Seq::<Seq<char>>::empty());
            assert(frames@.unref() =~= selected(objects@, Seq::<int>::empty()));
            frames
        },
    };
    match validate(base, &object_frames) {
        Ok(_) => {},
        Err(index) => { return Err(ImportError::TopologyMismatch(index)); },
    }
    match build_model(base, &object_frames, default_texture, default_normal) {
        Ok(model) => Ok(Imported { base: place, model }),
        Err(error) => Err(ImportError::Mesh(error)),
    }
}

} // verus!
