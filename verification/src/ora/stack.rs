//! The `stack.xml` data model and the parser that builds it from the
//! events of an XML reader: every event goes to [`StackParser::feed`]
//! until it asks to stop, then [`StackParser::finish`] gives the result.

use vstd::prelude::*;

use crate::text::{i32_of, parse_i32_trimmed, parse_u32_trimmed, str_eq, trimmed, u32_of};

use super::error::OraError;

verus! {

/// One attribute of an XML start tag: its qualified name and its raw
/// (unescaped) value.
pub struct XmlAttr {
    /// The attribute's qualified name.
    pub key: String,
    /// The attribute's raw value.
    pub value: String,
}

/// An event of the XML reader, reduced to what the parser reads.
pub enum XmlEvent {
    /// A start tag (or an expanded empty-element tag): its local name and
    /// attributes.
    Start { name: String, attrs: Vec<XmlAttr> },
    /// An end tag: its local name.
    End { name: String },
    /// The end of the document.
    Eof,
    /// Any other event (text, comments, declarations).
    Other,
    /// The reader failed; its message.
    Error(String),
}

/// What a `<layer>` tag describes.
pub struct OraLayer {
    /// The `name` attribute (empty when missing).
    pub name: String,
    /// The `src` attribute: the archive path of the layer's PNG.
    pub src: String,
    /// The `x` offset (zero when missing or not a number).
    pub x: i32,
    /// The `y` offset (zero when missing or not a number).
    pub y: i32,
    /// The raw `opacity` attribute, if present (read as `1.0` when missing
    /// or not a number).
    pub opacity: Option<String>,
    /// Whether the `visibility` attribute is anything but `hidden`.
    pub visible: bool,
    /// The `composite-op` attribute (`svg:src-over` when missing).
    pub composite_op: String,
}

/// What a `<stack>` tag describes.
pub struct OraStack {
    /// The `name` attribute (empty when missing).
    pub name: String,
    /// The raw `opacity` attribute, if present.
    pub opacity: Option<String>,
    /// Whether the `visibility` attribute is anything but `hidden`.
    pub visible: bool,
    /// The `composite-op` attribute (`svg:src-over` when missing).
    pub composite_op: String,
    /// The group's children, top-first.
    pub children: Vec<OraNode>,
}

/// A node in an ORA stack: a raster layer or a nested group.
pub enum OraNode {
    /// A raster layer.
    Layer(OraLayer),
    /// A nested group.
    Stack(OraStack),
}

/// Parsed `stack.xml`: canvas dimensions and the top-level nodes.
pub struct OraImage {
    /// Canvas width in pixels.
    pub width: u32,
    /// Canvas height in pixels.
    pub height: u32,
    /// The nodes at the top level, topmost first.
    pub children: Vec<OraNode>,
}

/// The value of the first attribute of `attrs` named `key`.
pub open spec fn attr_value(attrs: Seq<XmlAttr>, key: Seq<char>) -> Option<Seq<char>>
    decreases attrs.len(),
{
    if attrs.len() == 0 {
        None
    } else if attrs[0].key@ == key {
        Some(attrs[0].value@)
    } else {
        attr_value(attrs.drop_first(), key)
    }
}

/// `v`, or `d` when there is none.
pub open spec fn text_or(v: Option<Seq<char>>, d: Seq<char>) -> Seq<char> {
    match v {
        Some(s) => s,
        None => d,
    }
}

/// Whether a `visibility` value shows the node: anything but `hidden`, and
/// a missing value.
pub open spec fn shown(v: Option<Seq<char>>) -> bool {
    match v {
        Some(s) => s != "hidden"@,
        None => true,
    }
}

/// The `u32` a value reads as (zero when missing or not a number).
pub open spec fn u32_or_zero(v: Option<Seq<char>>) -> u32 {
    match v {
        Some(s) => match u32_of(trimmed(s)) {
            Some(n) => n,
            None => 0,
        },
        None => 0,
    }
}

/// The `i32` a value reads as (zero when missing or not a number).
pub open spec fn i32_or_zero(v: Option<Seq<char>>) -> i32 {
    match v {
        Some(s) => match i32_of(trimmed(s)) {
            Some(n) => n,
            None => 0,
        },
        None => 0,
    }
}

/// The characters of an optional string.
pub open spec fn opt_text(o: Option<String>) -> Option<Seq<char>> {
    match o {
        Some(s) => Some(s@),
        None => None,
    }
}

/// `l` is the layer entry a `<layer>` tag with attributes `attrs` gives.
pub open spec fn layer_of(l: OraLayer, attrs: Seq<XmlAttr>) -> bool {
    &&& l.name@ == text_or(attr_value(attrs, "name"@), ""@)
    &&& l.src@ == text_or(attr_value(attrs, "src"@), ""@)
    &&& l.x == i32_or_zero(attr_value(attrs, "x"@))
    &&& l.y == i32_or_zero(attr_value(attrs, "y"@))
    &&& opt_text(l.opacity) == attr_value(attrs, "opacity"@)
    &&& l.visible == shown(attr_value(attrs, "visibility"@))
    &&& l.composite_op@ == text_or(attr_value(attrs, "composite-op"@), "svg:src-over"@)
}

/// `f` is the (still empty) group a `<stack>` tag with attributes `attrs`
/// opens.
pub open spec fn frame_of(f: OraStack, attrs: Seq<XmlAttr>) -> bool {
    &&& f.name@ == text_or(attr_value(attrs, "name"@), ""@)
    &&& opt_text(f.opacity) == attr_value(attrs, "opacity"@)
    &&& f.visible == shown(attr_value(attrs, "visibility"@))
    &&& f.composite_op@ == text_or(attr_value(attrs, "composite-op"@), "svg:src-over"@)
    &&& f.children@.len() == 0
}

/// `g` is the group `f` with `x` appended to its children.
pub open spec fn with_child(f: OraStack, g: OraStack, x: OraNode) -> bool {
    &&& g.name == f.name
    &&& g.opacity == f.opacity
    &&& g.visible == f.visible
    &&& g.composite_op == f.composite_op
    &&& g.children@ == f.children@.push(x)
}

/// The position of the first attribute of `attrs` named `key`.
fn find_attr(attrs: &Vec<XmlAttr>, key: &str) -> (r: Option<usize>)
    ensures
        match r {
            Some(i) => i < attrs@.len() && attr_value(attrs@, key@) == Some(attrs@[i as int].value@),
            None => attr_value(attrs@, key@) is None,
        },
{
    let mut i: usize = 0;
    assert(attrs@.subrange(0, attrs@.len() as int) =~= attrs@);
    while i < attrs.len()
        invariant
            i <= attrs@.len(),
            attr_value(attrs@, key@) == attr_value(attrs@.subrange(i as int, attrs@.len() as int), key@),
        decreases attrs@.len() - i,
    {
        let ghost rest = attrs@.subrange(i as int, attrs@.len() as int);
        assert(rest[0] == attrs@[i as int]);
        assert(rest.drop_first() =~= attrs@.subrange(i + 1, attrs@.len() as int));
        if str_eq(attrs[i].key.as_str(), key) {
            return Some(i);
        }
        i = i + 1;
    }
    None
}

/// The value of attribute `key`, or `default` when there is none.
fn attr_text(attrs: &Vec<XmlAttr>, key: &str, default: &str) -> (r: String)
    ensures
        r@ == text_or(attr_value(attrs@, key@), default@),
{
    match find_attr(attrs, key) {
        Some(i) => attrs[i].value.clone(),
        None => default.to_owned(),
    }
}

/// The value of attribute `key`, if present.
fn attr_opt(attrs: &Vec<XmlAttr>, key: &str) -> (r: Option<String>)
    ensures
        opt_text(r) == attr_value(attrs@, key@),
{
    match find_attr(attrs, key) {
        Some(i) => Some(attrs[i].value.clone()),
        None => None,
    }
}

/// Whether the `visibility` attribute shows the node.
fn attr_shown(attrs: &Vec<XmlAttr>) -> (r: bool)
    ensures
        r == shown(attr_value(attrs@, "visibility"@)),
{
    match find_attr(attrs, "visibility") {
        Some(i) => !str_eq(attrs[i].value.as_str(), "hidden"),
        None => true,
    }
}

/// Attribute `key` read as an `i32` (zero when missing or not a number).
fn attr_i32(attrs: &Vec<XmlAttr>, key: &str) -> (r: i32)
    ensures
        r == i32_or_zero(attr_value(attrs@, key@)),
{
    match find_attr(attrs, key) {
        Some(i) => match parse_i32_trimmed(attrs[i].value.as_str()) {
            Some(n) => n,
            None => 0,
        },
        None => 0,
    }
}

/// Attribute `key` read as a `u32` (zero when missing or not a number).
fn attr_u32(attrs: &Vec<XmlAttr>, key: &str) -> (r: u32)
    ensures
        r == u32_or_zero(attr_value(attrs@, key@)),
{
    match find_attr(attrs, key) {
        Some(i) => match parse_u32_trimmed(attrs[i].value.as_str()) {
            Some(n) => n,
            None => 0,
        },
        None => 0,
    }
}

/// The layer entry of a `<layer>` tag.
fn layer_from(attrs: &Vec<XmlAttr>) -> (r: OraLayer)
    ensures
        layer_of(r, attrs@),
{
    OraLayer {
        name: attr_text(attrs, "name", ""),
        src: attr_text(attrs, "src", ""),
        x: attr_i32(attrs, "x"),
        y: attr_i32(attrs, "y"),
        opacity: attr_opt(attrs, "opacity"),
        visible: attr_shown(attrs),
        composite_op: attr_text(attrs, "composite-op", "svg:src-over"),
    }
}

/// The empty group a `<stack>` tag opens.
fn frame_from(attrs: &Vec<XmlAttr>) -> (r: OraStack)
    ensures
        frame_of(r, attrs@),
{
    OraStack {
        name: attr_text(attrs, "name", ""),
        opacity: attr_opt(attrs, "opacity"),
        visible: attr_shown(attrs),
        composite_op: attr_text(attrs, "composite-op", "svg:src-over"),
        children: Vec::new(),
    }
}

/// The state of a `stack.xml` parse: the image dimensions seen so far, the
/// groups currently open (the first is the root stack), the children of
/// the root once it has closed, and the reader's error, if any.
pub struct StackParser {
    width: u32,
    height: u32,
    frames: Vec<OraStack>,
    root_children: Vec<OraNode>,
    failed: Option<String>,
}

/// A parser that has seen nothing: no dimensions, no open groups, no root
/// children, no failure.
pub open spec fn blank(p: StackParser) -> bool {
    &&& p.spec_width() == 0
    &&& p.spec_height() == 0
    &&& p.open_frames().len() == 0
    &&& p.root().len() == 0
    &&& p.failure() is None
}

/// Taking in event `ev` turns parser `before` into `after`, answering
/// `more` (whether reading goes on); see [`StackParser::feed`].
pub open spec fn fed(before: StackParser, ev: XmlEvent, after: StackParser, more: bool) -> bool {
    match ev {
        XmlEvent::Error(m) => {
            &&& !more
            &&& after.failure() == Some(m@)
            &&& after.spec_width() == before.spec_width()
            &&& after.spec_height() == before.spec_height()
            &&& after.open_frames() == before.open_frames()
            &&& after.root() == before.root()
        },
        XmlEvent::Eof => !more && before.same_state(&after),
        XmlEvent::Other => more && before.same_state(&after),
        XmlEvent::Start { name, attrs } => {
            &&& more
            &&& after.failure() == before.failure()
            &&& after.root() == before.root()
            &&& if name@ == "image"@ {
                &&& after.spec_width() == u32_or_zero(attr_value(attrs@, "w"@))
                &&& after.spec_height() == u32_or_zero(attr_value(attrs@, "h"@))
                &&& after.open_frames() == before.open_frames()
            } else {
                &&& after.spec_width() == before.spec_width()
                &&& after.spec_height() == before.spec_height()
                &&& if name@ == "stack"@ {
                    &&& after.open_frames().len() == before.open_frames().len() + 1
                    &&& after.open_frames().drop_last() == before.open_frames()
                    &&& frame_of(after.open_frames().last(), attrs@)
                } else if name@ == "layer"@ && before.open_frames().len() > 0 {
                    &&& after.open_frames().len() == before.open_frames().len()
                    &&& after.open_frames().drop_last() == before.open_frames().drop_last()
                    &&& after.open_frames().last().children@.last() matches OraNode::Layer(l)
                        && layer_of(l, attrs@)
                    &&& after.open_frames().last().children@.len() > 0
                    &&& with_child(
                        before.open_frames().last(),
                        after.open_frames().last(),
                        after.open_frames().last().children@.last(),
                    )
                } else {
                    after.open_frames() == before.open_frames()
                }
            }
        },
        XmlEvent::End { name } => {
            &&& more
            &&& after.failure() == before.failure()
            &&& after.spec_width() == before.spec_width()
            &&& after.spec_height() == before.spec_height()
            &&& if name@ == "stack"@ && before.open_frames().len() > 0 {
                let done = before.open_frames().last();
                let rest = before.open_frames().drop_last();
                if rest.len() > 0 {
                    &&& after.root() == before.root()
                    &&& after.open_frames().len() == rest.len()
                    &&& after.open_frames().drop_last() == rest.drop_last()
                    &&& with_child(rest.last(), after.open_frames().last(), OraNode::Stack(done))
                } else {
                    &&& after.open_frames().len() == 0
                    &&& after.root() == done.children@
                }
            } else {
                &&& after.open_frames() == before.open_frames()
                &&& after.root() == before.root()
            }
        },
    }
}

/// Parser `p`'s result is `r`; see [`StackParser::finish`].
pub open spec fn finished(p: StackParser, r: Result<OraImage, OraError>) -> bool {
    match p.failure() {
        Some(m) => r matches Err(OraError::Xml(e)) && e@ == m,
        None => if p.spec_width() == 0 || p.spec_height() == 0 {
            r matches Err(OraError::MissingImageDimensions)
        } else {
            r matches Ok(img) && img.width == p.spec_width() && img.height == p.spec_height()
                && img.children@ == p.root()
        },
    }
}

/// A blank parser that took in `evs` in order, each answering that reading
/// goes on, can be `p`.
pub open spec fn fed_all(evs: Seq<XmlEvent>, p: StackParser) -> bool
    decreases evs.len(),
{
    if evs.len() == 0 {
        blank(p)
    } else {
        exists|q: StackParser| #[trigger] fed(q, evs.last(), p, true) && fed_all(evs.drop_last(), q)
    }
}

/// Parsing the events `evs` can give `r`: a blank parser takes them in
/// order until one asks it to stop (or they run out), then gives its
/// result.
pub open spec fn stack_result(evs: Seq<XmlEvent>, r: Result<OraImage, OraError>) -> bool {
    ||| exists|k: int, q: StackParser, p: StackParser|
        #![trigger fed(q, evs[k], p, false), finished(p, r)]
        0 <= k < evs.len() && fed_all(evs.take(k), q) && fed(q, evs[k], p, false) && finished(p, r)
    ||| exists|p: StackParser| #![trigger finished(p, r)] fed_all(evs, p) && finished(p, r)
}

impl StackParser {
    /// The width read from `<image>` (zero until then).
    pub closed spec fn spec_width(&self) -> u32 {
        self.width
    }

    /// The height read from `<image>` (zero until then).
    pub closed spec fn spec_height(&self) -> u32 {
        self.height
    }

    /// The groups currently open, outermost first.
    pub closed spec fn open_frames(&self) -> Seq<OraStack> {
        self.frames@
    }

    /// The children of the root stack, once it has closed.
    pub closed spec fn root(&self) -> Seq<OraNode> {
        self.root_children@
    }

    /// The reader's error message, if it failed.
    pub closed spec fn failure(&self) -> Option<Seq<char>> {
        opt_text(self.failed)
    }

    /// `after` keeps the dimensions, open groups, root children and failure
    /// of `self`.
    pub open spec fn same_state(&self, after: &StackParser) -> bool {
        &&& after.spec_width() == self.spec_width()
        &&& after.spec_height() == self.spec_height()
        &&& after.open_frames() == self.open_frames()
        &&& after.root() == self.root()
        &&& after.failure() == self.failure()
    }

    /// A parser that has seen nothing.
    pub fn new() -> (r: StackParser)
        ensures
            blank(r),
    {
        StackParser { width: 0, height: 0, frames: Vec::new(), root_children: Vec::new(), failed: None }
    }

    /// Take in one reader event; returns whether the caller should go on
    /// reading (not after the end of the document or an error).
    ///
    /// `<image>` sets the dimensions from its `w` and `h`; `<stack>` opens a
    /// group; `<layer>` adds a layer to the innermost open group (and is
    /// ignored outside any); `</stack>` closes the innermost group into its
    /// parent, or, for the root stack, makes its children the result.
    pub fn feed(&mut self, ev: XmlEvent) -> (more: bool)
        ensures
            match ev {
                XmlEvent::Error(m) => {
                    &&& !more
                    &&& final(self).failure() == Some(m@)
                    &&& final(self).spec_width() == old(self).spec_width()
                    &&& final(self).spec_height() == old(self).spec_height()
                    &&& final(self).open_frames() == old(self).open_frames()
                    &&& final(self).root() == old(self).root()
                },
                XmlEvent::Eof => !more && old(self).same_state(&*final(self)),
                XmlEvent::Other => more && old(self).same_state(&*final(self)),
                XmlEvent::Start { name, attrs } => {
                    &&& more
                    &&& final(self).failure() == old(self).failure()
                    &&& final(self).root() == old(self).root()
                    &&& if name@ == "image"@ {
                        &&& final(self).spec_width() == u32_or_zero(attr_value(attrs@, "w"@))
                        &&& final(self).spec_height() == u32_or_zero(attr_value(attrs@, "h"@))
                        &&& final(self).open_frames() == old(self).open_frames()
                    } else {
                        &&& final(self).spec_width() == old(self).spec_width()
                        &&& final(self).spec_height() == old(self).spec_height()
                        &&& if name@ == "stack"@ {
                            &&& final(self).open_frames().len() == old(self).open_frames().len() + 1
                            &&& final(self).open_frames().drop_last() == old(self).open_frames()
                            &&& frame_of(final(self).open_frames().last(), attrs@)
                        } else if name@ == "layer"@ && old(self).open_frames().len() > 0 {
                            &&& final(self).open_frames().len() == old(self).open_frames().len()
                            &&& final(self).open_frames().drop_last() == old(self).open_frames().drop_last()
                            &&& final(self).open_frames().last().children@.last() matches OraNode::Layer(l)
                                && layer_of(l, attrs@)
                            &&& final(self).open_frames().last().children@.len() > 0
                            &&& with_child(
                                old(self).open_frames().last(),
                                final(self).open_frames().last(),
                                final(self).open_frames().last().children@.last(),
                            )
                        } else {
                            final(self).open_frames() == old(self).open_frames()
                        }
                    }
                },
                XmlEvent::End { name } => {
                    &&& more
                    &&& final(self).failure() == old(self).failure()
                    &&& final(self).spec_width() == old(self).spec_width()
                    &&& final(self).spec_height() == old(self).spec_height()
                    &&& if name@ == "stack"@ && old(self).open_frames().len() > 0 {
                        let done = old(self).open_frames().last();
                        let rest = old(self).open_frames().drop_last();
                        if rest.len() > 0 {
                            &&& final(self).root() == old(self).root()
                            &&& final(self).open_frames().len() == rest.len()
                            &&& final(self).open_frames().drop_last() == rest.drop_last()
                            &&& with_child(rest.last(), final(self).open_frames().last(), OraNode::Stack(done))
                        } else {
                            &&& final(self).open_frames().len() == 0
                            &&& final(self).root() == done.children@
                        }
                    } else {
                        &&& final(self).open_frames() == old(self).open_frames()
                        &&& final(self).root() == old(self).root()
                    }
                },
            },
    {
        match ev {
            XmlEvent::Error(m) => {
                self.failed = Some(m);
                false
            },
            XmlEvent::Eof => false,
            XmlEvent::Other => true,
            XmlEvent::Start { name, attrs } => {
                if str_eq(name.as_str(), "image") {
                    self.width = attr_u32(&attrs, "w");
                    self.height = attr_u32(&attrs, "h");
                } else if str_eq(name.as_str(), "stack") {
                    let f = frame_from(&attrs);
                    self.frames.push(f);
                } else if str_eq(name.as_str(), "layer") {
                    if self.frames.len() > 0 {
                        let mut f = self.frames.pop().unwrap();
                        let l = layer_from(&attrs);
                        f.children.push(OraNode::Layer(l));
                        self.frames.push(f);
                    }
                }
                true
            },
            XmlEvent::End { name } => {
                if str_eq(name.as_str(), "stack") && self.frames.len() > 0 {
                    let done = self.frames.pop().unwrap();
                    if self.frames.len() > 0 {
                        let mut parent = self.frames.pop().unwrap();
                        parent.children.push(OraNode::Stack(done));
                        self.frames.push(parent);
                    } else {
                        self.root_children = done.children;
                    }
                }
                true
            },
        }
    }

    /// The parsed image: the reader's error if it failed, an error when
    /// `<image>` gave no positive width and height, and otherwise the
    /// dimensions with the root stack's children.
    pub fn finish(self) -> (r: Result<OraImage, OraError>)
        ensures
            finished(self, r),
    {
        match self.failed {
            Some(m) => Err(OraError::Xml(m)),
            None => {
                if self.width == 0 || self.height == 0 {
                    return Err(OraError::MissingImageDimensions);
                }
                Ok(OraImage { width: self.width, height: self.height, children: self.root_children })
            },
        }
    }
}

} // verus!
