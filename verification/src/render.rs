use vstd::prelude::*;

use std::rc::Rc;

use crate::color::RGBInt;
use crate::config::{EVENT_MARKER_HEIGHT, EVENT_MARKER_WIDTH, MAX_DIM};
use crate::error::UpdaterError;

verus! {

/// An axis-aligned pixel rectangle.
#[derive(Clone, Copy, Debug, PartialEq, Eq, Structural)]
pub struct Rect {
    pub x: u32,
    pub y: u32,
    pub width: u32,
    pub height: u32,
}

/// The compositing rule a subtree is painted with.
#[derive(Clone, Copy, Debug, PartialEq, Eq, Structural)]
pub enum PaintOp {
    Over,
    DestIn,
    DestOver,
}

/// The font roles the layout uses; the paint backend maps each to its
/// concrete font description.
#[derive(Clone, Copy, Debug, PartialEq, Eq, Structural)]
pub enum FontKind {
    DayHeader,
    Time,
    EndTime,
    EventInfo,
    ConfigInfo,
}

/// What the font-shaping collaborator reports for one piece of text:
/// pixel width, pixel height clipped to the requested line count, and
/// the baseline offset of the first line.
#[derive(Clone, Copy, Debug, PartialEq, Eq, Structural)]
pub struct TextMetrics {
    pub width: u32,
    pub height: u32,
    pub baseline: u32,
}

/// A shared handle to a node of the render tree; sharing lets one
/// subtree stand in several places, and no node is mutated after
/// construction.
pub struct RcRenderable(pub Rc<RenderNode>);

/// One node of the render tree, carrying its intrinsic pixel bounds.
/// The bounds are fixed at construction: querying them never paints and
/// painting never changes them.
pub struct RenderNode {
    pub width: u32,
    pub height: u32,
    pub kind: NodeKind,
}

/// The closed set of layout combinators and leaf contents.
pub enum NodeKind {
    /// Blank space.
    Pad,
    /// A solid rectangle of one color.
    FillRect { color: RGBInt },
    /// A dashed horizontal rule with a margin above it.
    Separator { color: RGBInt, thickness: u32, dash: u32, margin: u32 },
    /// An externally loaded raster, referenced by handle.
    Surface { surface_id: u32 },
    /// A measured piece of text.
    Text { text: String, color: RGBInt, font: FontKind, wrap_width: u32, max_lines: u32 },
    /// The triangular event marker, solid or dimmed.
    Marker { is_ended: bool },
    /// A child offset by (dx, dy).
    Translate { child: RcRenderable, dx: u32, dy: u32 },
    /// A child restricted to a rectangle of its own coordinate space;
    /// the rectangle's size is also the node's size.
    Clip { child: RcRenderable, rect: Rect },
    /// A child scaled by the rational factors sx_num/sx_den and
    /// sy_num/sy_den.
    Scale { child: RcRenderable, sx_num: u32, sx_den: u32, sy_num: u32, sy_den: u32 },
    /// A child with its axes transposed.
    Swap { child: RcRenderable },
    /// Children overlaid at one origin; bounds are the maxima.
    Group { children: Vec<RcRenderable> },
    /// Children stacked downwards; bounds are max width and total
    /// height.
    Column { children: Vec<RcRenderable> },
    /// A child painted under a forced compositing operator.
    Operator { child: RcRenderable, op: PaintOp },
    /// A child surrounded by blank margin on its top left.
    Margin { child: RcRenderable, mw: u32, mh: u32 },
}

/// The widest stored width among the nodes of a sequence.
pub open spec fn max_width(s: Seq<RcRenderable>) -> int
    decreases s.len(),
{
    if s.len() == 0 {
        0
    } else {
        let m = max_width(s.drop_last());
        let w = (*s.last().0).width as int;
        if w > m {
            w
        } else {
            m
        }
    }
}

/// The tallest stored height among the nodes of a sequence.
pub open spec fn max_height(s: Seq<RcRenderable>) -> int
    decreases s.len(),
{
    if s.len() == 0 {
        0
    } else {
        let m = max_height(s.drop_last());
        let h = (*s.last().0).height as int;
        if h > m {
            h
        } else {
            m
        }
    }
}

/// The sum of the stored heights of a sequence of nodes.
pub open spec fn sum_heights(s: Seq<RcRenderable>) -> int
    decreases s.len(),
{
    if s.len() == 0 {
        0
    } else {
        sum_heights(s.drop_last()) + (*s.last().0).height
    }
}

impl RenderNode {
    /// Well-formedness of the tree: every stored bound is within range
    /// and equals exactly what the node's own combinator law computes
    /// from its children's bounds.
    pub open spec fn wf(self) -> bool
        decreases self,
    {
        &&& self.width <= MAX_DIM
        &&& self.height <= MAX_DIM
        &&& match self.kind {
            NodeKind::Pad => true,
            NodeKind::FillRect { .. } => true,
            NodeKind::Separator { thickness, margin, .. } => self.height == thickness + margin,
            NodeKind::Surface { .. } => true,
            NodeKind::Text { .. } => true,
            NodeKind::Marker { .. } => self.width == EVENT_MARKER_WIDTH && self.height
                == EVENT_MARKER_HEIGHT,
            NodeKind::Translate { child, dx, dy } => {
                &&& (*child.0).wf()
                &&& self.width == (*child.0).width + dx
                &&& self.height == (*child.0).height + dy
            },
            NodeKind::Clip { child, rect } => {
                &&& (*child.0).wf()
                &&& self.width == rect.width
                &&& self.height == rect.height
            },
            NodeKind::Scale { child, sx_num, sx_den, sy_num, sy_den } => {
                &&& sx_den > 0
                &&& sy_den > 0
                &&& (*child.0).wf()
                &&& self.width == ((*child.0).width * sx_num) / (sx_den as int)
                &&& self.height == ((*child.0).height * sy_num) / (sy_den as int)
            },
            NodeKind::Swap { child } => {
                &&& (*child.0).wf()
                &&& self.width == (*child.0).height
                &&& self.height == (*child.0).width
            },
            NodeKind::Group { children } => {
                &&& forall|i: int| 0 <= i < children@.len() ==> (*(#[trigger] children@[i]).0).wf()
                &&& self.width == max_width(children@)
                &&& self.height == max_height(children@)
            },
            NodeKind::Column { children } => {
                &&& forall|i: int| 0 <= i < children@.len() ==> (*(#[trigger] children@[i]).0).wf()
                &&& self.width == max_width(children@)
                &&& self.height == sum_heights(children@)
            },
            NodeKind::Operator { child, .. } => {
                &&& (*child.0).wf()
                &&& self.width == (*child.0).width
                &&& self.height == (*child.0).height
            },
            NodeKind::Margin { child, mw, mh } => {
                &&& (*child.0).wf()
                &&& self.width == (*child.0).width + mw
                &&& self.height == (*child.0).height + mh
            },
        }
    }

    /// The node's intrinsic bounds.  The result is a pure function of
    /// the node value: querying it twice gives the same answer, and
    /// nothing in this crate mutates a constructed node.
    pub fn bounds(&self) -> (r: (u32, u32))
        ensures
            r == (self.width, self.height),
    {
        (self.width, self.height)
    }

    pub fn into_rc(self) -> (r: RcRenderable)
        ensures
            *r.0 == self,
    {
        RcRenderable(Rc::new(self))
    }
}

impl Clone for RcRenderable {
    /// Cloning shares the node: the copy is the same tree.
    fn clone(&self) -> (r: Self)
        ensures
            r == *self,
    {
        RcRenderable(self.0.clone())
    }
}

impl RcRenderable {
    pub open spec fn wf(self) -> bool {
        (*self.0).wf()
    }

    pub open spec fn spec_width(self) -> int {
        (*self.0).width as int
    }

    pub open spec fn spec_height(self) -> int {
        (*self.0).height as int
    }

    pub fn bounds(&self) -> (r: (u32, u32))
        ensures
            r == ((*self.0).width, (*self.0).height),
    {
        ((*self.0).width, (*self.0).height)
    }

    pub fn width(&self) -> (r: u32)
        ensures
            r == (*self.0).width,
    {
        (*self.0).width
    }

    pub fn height(&self) -> (r: u32)
        ensures
            r == (*self.0).height,
    {
        (*self.0).height
    }
}

/// Blank space of the given size.
pub fn pad(w: u32, h: u32) -> (r: Result<RenderNode, UpdaterError>)
    ensures
        r.is_ok() <==> (w <= MAX_DIM && h <= MAX_DIM),
        r.is_ok() ==> r.unwrap().wf(),
        r.is_ok() ==> r.unwrap() == (RenderNode { width: w, height: h, kind: NodeKind::Pad }),
{
    if w > MAX_DIM || h > MAX_DIM {
        return Err(
            UpdaterError::GeometryOverflow {
                field: "pad",
                value: if w > MAX_DIM {
                    w as u64
                } else {
                    h as u64
                },
            },
        );
    }
    Ok(RenderNode { width: w, height: h, kind: NodeKind::Pad })
}

/// A solid rectangle.
pub fn fill_rect(color: RGBInt, w: u32, h: u32) -> (r: Result<RenderNode, UpdaterError>)
    ensures
        r.is_ok() <==> (w <= MAX_DIM && h <= MAX_DIM),
        r.is_ok() ==> r.unwrap().wf(),
        r.is_ok() ==> r.unwrap() == (RenderNode {
            width: w,
            height: h,
            kind: NodeKind::FillRect { color },
        }),
{
    if w > MAX_DIM || h > MAX_DIM {
        return Err(
            UpdaterError::GeometryOverflow {
                field: "fill_rect",
                value: if w > MAX_DIM {
                    w as u64
                } else {
                    h as u64
                },
            },
        );
    }
    Ok(RenderNode { width: w, height: h, kind: NodeKind::FillRect { color } })
}

/// A dashed separator rule: `margin` blank pixels, then a line of the
/// given thickness.
pub fn separator(color: RGBInt, width: u32, thickness: u32, dash: u32, margin: u32) -> (r: Result<
    RenderNode,
    UpdaterError,
>)
    ensures
        r.is_ok() <==> (width <= MAX_DIM && thickness + margin <= MAX_DIM),
        r.is_ok() ==> r.unwrap().wf(),
        r.is_ok() ==> r.unwrap() == (RenderNode {
            width,
            height: (thickness + margin) as u32,
            kind: NodeKind::Separator { color, thickness, dash, margin },
        }),
{
    if width > MAX_DIM {
        return Err(UpdaterError::GeometryOverflow { field: "separator", value: width as u64 });
    }
    if thickness > MAX_DIM || margin > MAX_DIM - thickness {
        return Err(
            UpdaterError::GeometryOverflow {
                field: "separator",
                value: (thickness as u64) + (margin as u64),
            },
        );
    }
    Ok(
        RenderNode {
            width,
            height: thickness + margin,
            kind: NodeKind::Separator { color, thickness, dash, margin },
        },
    )
}

/// An externally loaded raster of known size, referenced by handle.
pub fn surface(surface_id: u32, w: u32, h: u32) -> (r: Result<RenderNode, UpdaterError>)
    ensures
        r.is_ok() <==> (w <= MAX_DIM && h <= MAX_DIM),
        r.is_ok() ==> r.unwrap().wf(),
        r.is_ok() ==> r.unwrap() == (RenderNode {
            width: w,
            height: h,
            kind: NodeKind::Surface { surface_id },
        }),
{
    if w > MAX_DIM || h > MAX_DIM {
        return Err(
            UpdaterError::GeometryOverflow {
                field: "surface",
                value: if w > MAX_DIM {
                    w as u64
                } else {
                    h as u64
                },
            },
        );
    }
    Ok(RenderNode { width: w, height: h, kind: NodeKind::Surface { surface_id } })
}

/// A measured piece of text; the bounds are what the font-shaping
/// collaborator reported for it.
pub fn text_box(
    text: String,
    color: RGBInt,
    font: FontKind,
    wrap_width: u32,
    max_lines: u32,
    m: TextMetrics,
) -> (r: Result<RenderNode, UpdaterError>)
    ensures
        r.is_ok() <==> (m.width <= MAX_DIM && m.height <= MAX_DIM),
        r.is_ok() ==> r.unwrap().wf(),
        r.is_ok() ==> r.unwrap() == (RenderNode {
            width: m.width,
            height: m.height,
            kind: NodeKind::Text { text, color, font, wrap_width, max_lines },
        }),
{
    if m.width > MAX_DIM || m.height > MAX_DIM {
        return Err(
            UpdaterError::GeometryOverflow {
                field: "text_box",
                value: if m.width > MAX_DIM {
                    m.width as u64
                } else {
                    m.height as u64
                },
            },
        );
    }
    Ok(
        RenderNode {
            width: m.width,
            height: m.height,
            kind: NodeKind::Text { text, color, font, wrap_width, max_lines },
        },
    )
}

/// The triangular event marker.
pub fn marker(is_ended: bool) -> (r: RenderNode)
    ensures
        r.wf(),
        r == (RenderNode {
            width: EVENT_MARKER_WIDTH,
            height: EVENT_MARKER_HEIGHT,
            kind: NodeKind::Marker { is_ended },
        }),
{
    RenderNode {
        width: EVENT_MARKER_WIDTH,
        height: EVENT_MARKER_HEIGHT,
        kind: NodeKind::Marker { is_ended },
    }
}

impl RcRenderable {
    /// Offsets this subtree by (x, y); the bounds grow by the offset.
    pub fn offset(&self, x: u32, y: u32) -> (r: Result<RcRenderable, UpdaterError>)
        requires
            self.wf(),
        ensures
            r.is_ok() <==> (self.spec_width() + x <= MAX_DIM && self.spec_height() + y <= MAX_DIM),
            r.is_ok() ==> (*r.unwrap().0).wf(),
            r.is_ok() ==> *r.unwrap().0 == (RenderNode {
                width: (self.spec_width() + x) as u32,
                height: (self.spec_height() + y) as u32,
                kind: NodeKind::Translate { child: *self, dx: x, dy: y },
            }),
    {
        let w = self.width();
        let h = self.height();
        if x > MAX_DIM - w {
            return Err(
                UpdaterError::GeometryOverflow {
                    field: "offset",
                    value: (w as u64) + (x as u64),
                },
            );
        }
        if y > MAX_DIM - h {
            return Err(
                UpdaterError::GeometryOverflow {
                    field: "offset",
                    value: (h as u64) + (y as u64),
                },
            );
        }
        Ok(
            RenderNode {
                width: w + x,
                height: h + y,
                kind: NodeKind::Translate { child: self.clone(), dx: x, dy: y },
            }.into_rc(),
        )
    }

    /// Restricts this subtree to a rectangle of its own coordinate
    /// space; for layout the clip rectangle's size becomes the bounds.
    pub fn clip_to(&self, rect: Rect) -> (r: Result<RcRenderable, UpdaterError>)
        requires
            self.wf(),
        ensures
            r.is_ok() <==> (rect.width <= MAX_DIM && rect.height <= MAX_DIM),
            r.is_ok() ==> (*r.unwrap().0).wf(),
            r.is_ok() ==> *r.unwrap().0 == (RenderNode {
                width: rect.width,
                height: rect.height,
                kind: NodeKind::Clip { child: *self, rect },
            }),
    {
        if rect.width > MAX_DIM || rect.height > MAX_DIM {
            return Err(
                UpdaterError::GeometryOverflow {
                    field: "clip_to",
                    value: if rect.width > MAX_DIM {
                        rect.width as u64
                    } else {
                        rect.height as u64
                    },
                },
            );
        }
        Ok(
            RenderNode {
                width: rect.width,
                height: rect.height,
                kind: NodeKind::Clip { child: self.clone(), rect },
            }.into_rc(),
        )
    }

    /// Scales this subtree by the rational factors sx_num/sx_den
    /// horizontally and sy_num/sy_den vertically, flooring the bounds.
    /// A zero denominator is rejected.
    pub fn scale_by(&self, sx_num: u32, sx_den: u32, sy_num: u32, sy_den: u32) -> (r: Result<
        RcRenderable,
        UpdaterError,
    >)
        requires
            self.wf(),
        ensures
            r.is_ok() <==> (sx_den > 0 && sy_den > 0 && (self.spec_width() * sx_num) / (
            sx_den as int) <= MAX_DIM && (self.spec_height() * sy_num) / (sy_den as int)
                <= MAX_DIM),
            r.is_ok() ==> (*r.unwrap().0).wf(),
            r.is_ok() ==> *r.unwrap().0 == (RenderNode {
                width: ((self.spec_width() * sx_num) / (sx_den as int)) as u32,
                height: ((self.spec_height() * sy_num) / (sy_den as int)) as u32,
                kind: NodeKind::Scale { child: *self, sx_num, sx_den, sy_num, sy_den },
            }),
    {
        if sx_den == 0 || sy_den == 0 {
            return Err(UpdaterError::GeometryOverflow { field: "scale_by", value: 0 });
        }
        let w = self.width();
        let h = self.height();
        proof {
            assert((w as int) * (sx_num as int) < 0x10000000000000000 && (h as int) * (
            sy_num as int) < 0x10000000000000000) by (nonlinear_arith)
                requires
                    w <= 0x3FFFFu32 && h <= 0x3FFFFu32 && sx_num <= 0xFFFFFFFFu32 && sy_num
                        <= 0xFFFFFFFFu32,
            ;
        }
        let w64 = ((w as u64) * (sx_num as u64)) / (sx_den as u64);
        let h64 = ((h as u64) * (sy_num as u64)) / (sy_den as u64);
        if w64 > MAX_DIM as u64 || h64 > MAX_DIM as u64 {
            return Err(
                UpdaterError::GeometryOverflow {
                    field: "scale_by",
                    value: if w64 > MAX_DIM as u64 {
                        w64
                    } else {
                        h64
                    },
                },
            );
        }
        Ok(
            RenderNode {
                width: w64 as u32,
                height: h64 as u32,
                kind: NodeKind::Scale { child: self.clone(), sx_num, sx_den, sy_num, sy_den },
            }.into_rc(),
        )
    }

    /// Paints this subtree under a forced compositing operator; bounds
    /// are unchanged.
    pub fn with_operator(&self, op: PaintOp) -> (r: RcRenderable)
        requires
            self.wf(),
        ensures
            (*r.0).wf(),
            *r.0 == (RenderNode {
                width: self.spec_width() as u32,
                height: self.spec_height() as u32,
                kind: NodeKind::Operator { child: *self, op },
            }),
    {
        RenderNode {
            width: self.width(),
            height: self.height(),
            kind: NodeKind::Operator { child: self.clone(), op },
        }.into_rc()
    }

    /// Surrounds this subtree with blank margin: the child is offset by
    /// (mw, mh) and the bounds grow by the margin on both sides.
    pub fn margin(&self, mw: u32, mh: u32) -> (r: Result<RcRenderable, UpdaterError>)
        requires
            self.wf(),
        ensures
            r.is_ok() <==> (self.spec_width() + mw + mw <= MAX_DIM && self.spec_height() + mh + mh
                <= MAX_DIM),
            r.is_ok() ==> ({
                let n = *r.unwrap().0;
                &&& n.wf()
                &&& n.width == self.spec_width() + mw + mw
                &&& n.height == self.spec_height() + mh + mh
                &&& match n.kind {
                    NodeKind::Margin { child, mw: m1, mh: m2 } => {
                        &&& m1 == mw
                        &&& m2 == mh
                        &&& match (*child.0).kind {
                            NodeKind::Translate { child: c2, dx, dy } => c2 == *self && dx == mw
                                && dy == mh,
                            _ => false,
                        }
                    },
                    _ => false,
                }
            }),
    {
        let w = self.width();
        let h = self.height();
        if mw > MAX_DIM || (mw + mw) > MAX_DIM - w || mh > MAX_DIM || (mh + mh) > MAX_DIM - h {
            return Err(
                UpdaterError::GeometryOverflow {
                    field: "margin",
                    value: (w as u64) + 2 * (mw as u64),
                },
            );
        }
        let inner = self.offset(mw, mh);
        let inner = match inner {
            Ok(v) => v,
            Err(e) => {
                proof {
                    assert(false);
                }
                return Err(e);
            },
        };
        proof {
            assert((*inner.0).wf());
        }
        let node = RenderNode {
            width: w + mw + mw,
            height: h + mh + mh,
            kind: NodeKind::Margin { child: inner, mw, mh },
        };
        proof {
            assert(node.wf());
        }
        Ok(node.into_rc())
    }

    /// Transposes this subtree's axes.
    pub fn swap_axes(&self) -> (r: RcRenderable)
        requires
            self.wf(),
        ensures
            (*r.0).wf(),
            *r.0 == (RenderNode {
                width: self.spec_height() as u32,
                height: self.spec_width() as u32,
                kind: NodeKind::Swap { child: *self },
            }),
    {
        let node = RenderNode {
            width: self.height(),
            height: self.width(),
            kind: NodeKind::Swap { child: self.clone() },
        };
        proof {
            assert(node.wf());
        }
        node.into_rc()
    }
}

/// Transposes the axes of what it wraps; authored horizontal strips are
/// rendered as vertical ones through it.
pub struct SwapXY<R> {
    pub inner: R,
}

impl<R> SwapXY<R> {
    pub fn new(inner: R) -> (r: Self)
        ensures
            r == (SwapXY { inner }),
    {
        Self { inner }
    }
}

impl SwapXY<RcRenderable> {
    /// The tree node for the transposed subtree.
    pub fn into_node(self) -> (r: RcRenderable)
        requires
            self.inner.wf(),
        ensures
            (*r.0).wf(),
            *r.0 == (RenderNode {
                width: self.inner.spec_height() as u32,
                height: self.inner.spec_width() as u32,
                kind: NodeKind::Swap { child: self.inner },
            }),
    {
        let node = RenderNode {
            width: self.inner.height(),
            height: self.inner.width(),
            kind: NodeKind::Swap { child: self.inner },
        };
        proof {
            assert(node.wf());
        }
        node.into_rc()
    }
}




/// One step of the bounds folds: splitting off the last child.
pub proof fn lemma_fold_step(s: Seq<RcRenderable>)
    requires
        s.len() >= 1,
    ensures
        max_width(s) == max2(max_width(s.drop_last()), (*s.last().0).width as int),
        max_height(s) == max2(max_height(s.drop_last()), (*s.last().0).height as int),
        sum_heights(s) == sum_heights(s.drop_last()) + (*s.last().0).height,
        max_width(Seq::<RcRenderable>::empty()) == 0,
        max_height(Seq::<RcRenderable>::empty()) == 0,
        sum_heights(Seq::<RcRenderable>::empty()) == 0,
{
    assert(max_width(s) == if (*s.last().0).width as int > max_width(s.drop_last()) {
        (*s.last().0).width as int
    } else {
        max_width(s.drop_last())
    });
    assert(max_height(s) == if (*s.last().0).height as int > max_height(s.drop_last()) {
        (*s.last().0).height as int
    } else {
        max_height(s.drop_last())
    });
}

/// All-wf child sequences have bounded maxima and sums are nonnegative.
pub proof fn lemma_seq_bounds(s: Seq<RcRenderable>)
    requires
        forall|i: int| 0 <= i < s.len() ==> (*(#[trigger] s[i]).0).wf(),
    ensures
        0 <= max_width(s) <= MAX_DIM,
        0 <= max_height(s) <= MAX_DIM,
        0 <= sum_heights(s),
    decreases s.len(),
{
    if s.len() > 0 {
        lemma_seq_bounds(s.drop_last());
    }
}

/// Overlays children at one origin.
pub struct RenderGroup {
    pub items: Vec<RcRenderable>,
}

impl RenderGroup {
    pub fn new() -> (r: Self)
        ensures
            r.items@ == Seq::<RcRenderable>::empty(),
    {
        let r = Self { items: Vec::new() };
        proof {
            assert(r.items@ =~= Seq::<RcRenderable>::empty());
        }
        r
    }

    pub fn push(&mut self, item: RcRenderable)
        ensures
            final(self).items@ == old(self).items@.push(item),
    {
        self.items.push(item);
    }

    /// The group node: children painted in order at the same origin,
    /// bounds the maxima of theirs.
    pub fn into_node(self) -> (r: RcRenderable)
        requires
            forall|i: int| 0 <= i < self.items@.len() ==> (*(#[trigger] self.items@[i]).0).wf(),
        ensures
            (*r.0).wf(),
            *r.0 == (RenderNode {
                width: max_width(self.items@) as u32,
                height: max_height(self.items@) as u32,
                kind: NodeKind::Group { children: self.items },
            }),
    {
        let ghost all = self.items@;
        let mut w: u32 = 0;
        let mut h: u32 = 0;
        let mut i: usize = 0;
        while i < self.items.len()
            invariant
                all == self.items@,
                forall|k: int| 0 <= k < all.len() ==> (*(#[trigger] all[k]).0).wf(),
                0 <= i <= all.len(),
                w == max_width(all.take(i as int)),
                h == max_height(all.take(i as int)),
                w <= MAX_DIM,
                h <= MAX_DIM,
            decreases all.len() - i,
        {
            proof {
                assert(all.take(i + 1).drop_last() =~= all.take(i as int));
                assert(all.take(i + 1).last() == all[i as int]);
            }
            let iw = self.items[i].width();
            let ih = self.items[i].height();
            if iw > w {
                w = iw;
            }
            if ih > h {
                h = ih;
            }
            i = i + 1;
        }
        proof {
            assert(all.take(all.len() as int) =~= all);
        }
        let node = RenderNode { width: w, height: h, kind: NodeKind::Group { children: self.items } };
        proof {
            assert(node.wf());
        }
        node.into_rc()
    }
}

/// A column's invariant: its cached bounds are the maximum width and
/// total height of what was pushed.
pub open spec fn col_wf(c: RenderColumn) -> bool {
    &&& forall|i: int| 0 <= i < c.items@.len() ==> (*(#[trigger] c.items@[i]).0).wf()
    &&& c.width == max_width(c.items@)
    &&& c.height == sum_heights(c.items@)
    &&& c.width <= MAX_DIM
    &&& c.height <= MAX_DIM
}

/// Stacks children downwards, each directly below the previous one.
pub struct RenderColumn {
    pub items: Vec<RcRenderable>,
    pub width: u32,
    pub height: u32,
}

impl RenderColumn {
    pub fn new() -> (r: Self)
        ensures
            col_wf(r),
            r.items@ == Seq::<RcRenderable>::empty(),
            r.width == 0,
            r.height == 0,
    {
        let r = Self { items: Vec::new(), width: 0, height: 0 };
        proof {
            assert(r.items@ =~= Seq::<RcRenderable>::empty());
        }
        r
    }

    pub fn width(&self) -> (r: u32)
        ensures
            r == self.width,
    {
        self.width
    }

    pub fn height(&self) -> (r: u32)
        ensures
            r == self.height,
    {
        self.height
    }

    /// Places `item` directly below everything pushed so far and
    /// returns its vertical offset; the column grows to max width and
    /// summed height.
    pub fn push(&mut self, item: RcRenderable) -> (r: Result<u32, UpdaterError>)
        requires
            col_wf(*old(self)),
            item.wf(),
        ensures
            col_wf(*final(self)),
            r.is_ok() <==> old(self).height + item.spec_height() <= MAX_DIM,
            r.is_ok() ==> ({
                &&& final(self).items@ == old(self).items@.push(item)
                &&& final(self).height == old(self).height + item.spec_height()
                &&& final(self).width == if item.spec_width() > old(self).width {
                    item.spec_width()
                } else {
                    old(self).width as int
                }
                &&& r.unwrap() == old(self).height
            }),
            r.is_err() ==> *final(self) == *old(self),
    {
        let ih = item.height();
        let iw = item.width();
        if ih > MAX_DIM - self.height {
            return Err(
                UpdaterError::GeometryOverflow {
                    field: "column height",
                    value: (self.height as u64) + (ih as u64),
                },
            );
        }
        let offset = self.height;
        proof {
            assert(self.items@.push(item).drop_last() =~= self.items@);
            assert(self.items@.push(item).last() == item);
        }
        self.height = self.height + ih;
        if iw > self.width {
            self.width = iw;
        }
        self.items.push(item);
        Ok(offset)
    }

    /// The column node: children stacked in order, bounds (max width,
    /// total height).
    pub fn into_node(self) -> (r: RcRenderable)
        requires
            col_wf(self),
        ensures
            (*r.0).wf(),
            *r.0 == (RenderNode {
                width: self.width,
                height: self.height,
                kind: NodeKind::Column { children: self.items },
            }),
    {
        let node = RenderNode {
            width: self.width,
            height: self.height,
            kind: NodeKind::Column { children: self.items },
        };
        proof {
            assert(node.wf());
        }
        node.into_rc()
    }
}

/// Stack correctness: a column of children with bounds (w1, h1) and
/// (w2, h2) reports (max(w1, w2), h1 + h2), and a group of the same
/// children reports (max(w1, w2), max(h1, h2)).
pub proof fn lemma_stack_bounds(col: RenderNode, grp: RenderNode, a: RcRenderable, b: RcRenderable)
    requires
        col.wf(),
        grp.wf(),
        match col.kind {
            NodeKind::Column { children } => children@ == seq![a, b],
            _ => false,
        },
        match grp.kind {
            NodeKind::Group { children } => children@ == seq![a, b],
            _ => false,
        },
    ensures
        col.width == if a.spec_width() > b.spec_width() {
            a.spec_width()
        } else {
            b.spec_width()
        },
        col.height == a.spec_height() + b.spec_height(),
        grp.width == col.width,
        grp.height == if a.spec_height() > b.spec_height() {
            a.spec_height()
        } else {
            b.spec_height()
        },
{
    let s = seq![a, b];
    let s1 = s.drop_last();
    assert(s1.drop_last() =~= Seq::<RcRenderable>::empty());
    assert(s.last() == b);
    assert(s1.last() == a);
    assert(max_width(s1.drop_last()) == 0);
    assert(max_height(s1.drop_last()) == 0);
    assert(sum_heights(s1.drop_last()) == 0);
    assert(max_width(s1) == if (*s1.last().0).width as int > max_width(s1.drop_last()) {
        (*s1.last().0).width as int
    } else {
        max_width(s1.drop_last())
    });
    assert(max_height(s1) == if (*s1.last().0).height as int > max_height(s1.drop_last()) {
        (*s1.last().0).height as int
    } else {
        max_height(s1.drop_last())
    });
    assert(sum_heights(s1) == sum_heights(s1.drop_last()) + (*s1.last().0).height);
    assert(max_width(s) == if (*s.last().0).width as int > max_width(s1) {
        (*s.last().0).width as int
    } else {
        max_width(s1)
    });
    assert(max_height(s) == if (*s.last().0).height as int > max_height(s1) {
        (*s.last().0).height as int
    } else {
        max_height(s1)
    });
    assert(sum_heights(s) == sum_heights(s1) + (*s.last().0).height);
}

/// Bounds purity: a node's bounds are a function of the immutable tree
/// value alone, so two queries agree no matter what was painted in
/// between.
pub proof fn lemma_bounds_pure(n: RenderNode, b1: (u32, u32), b2: (u32, u32))
    requires
        b1 == (n.width, n.height),
        b2 == (n.width, n.height),
    ensures
        b1 == b2,
{
}

/// `n` is `src` clipped to `rect`, stretched by sx horizontally and sy
/// vertically, and placed at (dx, dy).
pub open spec fn is_stretched_slice(
    n: RcRenderable,
    src: RcRenderable,
    rect: Rect,
    sx: u32,
    sy: u32,
    dx: u32,
    dy: u32,
) -> bool {
    match (*n.0).kind {
        NodeKind::Translate { child: t, dx: tdx, dy: tdy } => {
            &&& tdx == dx
            &&& tdy == dy
            &&& match (*t.0).kind {
                NodeKind::Scale { child: sc, sx_num, sx_den, sy_num, sy_den } => {
                    &&& sx_num == sx
                    &&& sx_den == 1
                    &&& sy_num == sy
                    &&& sy_den == 1
                    &&& match (*sc.0).kind {
                        NodeKind::Clip { child: c, rect: r2 } => c == src && r2 == rect,
                        _ => false,
                    }
                },
                _ => false,
            }
        },
        _ => false,
    }
}


/// `n` is exactly the edge-stretch vertical padding of `src` by (a, b):
/// a group of the stretched top-row slice (when a > 0), the unscaled
/// source, and the stretched bottom-row slice (when b > 0).
pub open spec fn is_pad_vertical_of(n: RcRenderable, src: RcRenderable, a: u32, b: u32) -> bool {
    let w = (*src.0).width;
    let h = (*src.0).height;
    match (*n.0).kind {
        NodeKind::Group { children } => {
            let cs = children@;
            let na = if a > 0 {
                1int
            } else {
                0int
            };
            &&& cs.len() == na + 1 + if b > 0 {
                1int
            } else {
                0int
            }
            &&& (a > 0 ==> is_stretched_slice(
                cs[0],
                src,
                Rect { x: 0, y: 0, width: w, height: 1 },
                1,
                a,
                0,
                0,
            ))
            &&& is_stretched_slice(
                cs[na],
                src,
                Rect { x: 0, y: 0, width: w, height: h },
                1,
                1,
                0,
                a,
            )
            &&& (b > 0 ==> is_stretched_slice(
                cs[cs.len() - 1],
                src,
                Rect {
                    x: 0,
                    y: if h > 0 {
                        (h - 1) as u32
                    } else {
                        0
                    },
                    width: w,
                    height: 1,
                },
                1,
                b,
                0,
                (a + h) as u32,
            ))
        },
        _ => false,
    }
}

/// `n` is exactly the edge-stretch horizontal padding of `src` by
/// (l, r): the stretched left-column slice (when l > 0), the unscaled
/// source, and the stretched right-column slice (when r > 0).
pub open spec fn is_pad_sides_of(n: RcRenderable, src: RcRenderable, l: u32, r: u32) -> bool {
    let w = (*src.0).width;
    let h = (*src.0).height;
    match (*n.0).kind {
        NodeKind::Group { children } => {
            let cs = children@;
            let na = if l > 0 {
                1int
            } else {
                0int
            };
            &&& cs.len() == na + 1 + if r > 0 {
                1int
            } else {
                0int
            }
            &&& (l > 0 ==> is_stretched_slice(
                cs[0],
                src,
                Rect { x: 0, y: 0, width: 1, height: h },
                l,
                1,
                0,
                0,
            ))
            &&& is_stretched_slice(
                cs[na],
                src,
                Rect { x: 0, y: 0, width: w, height: h },
                1,
                1,
                l,
                0,
            )
            &&& (r > 0 ==> is_stretched_slice(
                cs[cs.len() - 1],
                src,
                Rect {
                    x: if w > 0 {
                        (w - 1) as u32
                    } else {
                        0
                    },
                    y: 0,
                    width: 1,
                    height: h,
                },
                r,
                1,
                (l + w) as u32,
                0,
            ))
        },
        _ => false,
    }
}

/// Edge-stretch padding above and below: a one-pixel slice from the top
/// edge is stretched to fill `pad_above`, the source sits unscaled
/// below it, and a one-pixel slice from the bottom edge is stretched to
/// fill `pad_below`.  Padding a W by H source by (a, b) yields bounds
/// W by (H + a + b).
pub fn pad_vertical(src: &RcRenderable, pad_above: u32, pad_below: u32) -> (res: Result<
    RcRenderable,
    UpdaterError,
>)
    requires
        src.wf(),
    ensures
        res.is_ok() <==> pad_above + src.spec_height() + pad_below <= MAX_DIM,
        res.is_ok() ==> ({
            let n = *res.unwrap().0;
            &&& n.wf()
            &&& n.width == src.spec_width()
            &&& n.height == pad_above + src.spec_height() + pad_below
            &&& is_pad_vertical_of(res.unwrap(), *src, pad_above, pad_below)
        }),
{
    let w = src.width();
    let h = src.height();
    if pad_above > MAX_DIM || (pad_above + h > MAX_DIM) || pad_below > MAX_DIM - (pad_above + h) {
        return Err(
            UpdaterError::GeometryOverflow {
                field: "pad_vertical",
                value: (pad_above as u64) + (h as u64) + (pad_below as u64),
            },
        );
    }
    proof {
        assert(((w as int) * 1) / 1 == w as int && ((h as int) * 1) / 1 == h as int && (1 * (
        pad_above as int)) / 1 == pad_above as int && (1 * (pad_below as int)) / 1
            == pad_below as int) by (nonlinear_arith);
    }
    let mut g = RenderGroup::new();
    if pad_above > 0 {
        let clipped = match src.clip_to(Rect { x: 0, y: 0, width: w, height: 1 }) {
            Ok(v) => v,
            Err(e) => {
                proof {
                    assert(false);
                }
                return Err(e);
            },
        };
        let scaled = match clipped.scale_by(1, 1, pad_above, 1) {
            Ok(v) => v,
            Err(e) => {
                proof {
                    assert(false);
                }
                return Err(e);
            },
        };
        let placed = match scaled.offset(0, 0) {
            Ok(v) => v,
            Err(e) => {
                proof {
                    assert(false);
                }
                return Err(e);
            },
        };
        g.push(placed);
    }
    let clipped = match src.clip_to(Rect { x: 0, y: 0, width: w, height: h }) {
        Ok(v) => v,
        Err(e) => {
            proof {
                assert(false);
            }
            return Err(e);
        },
    };
    let scaled = match clipped.scale_by(1, 1, 1, 1) {
        Ok(v) => v,
        Err(e) => {
            proof {
                assert(false);
            }
            return Err(e);
        },
    };
    let placed = match scaled.offset(0, pad_above) {
        Ok(v) => v,
        Err(e) => {
            proof {
                assert(false);
            }
            return Err(e);
        },
    };
    g.push(placed);
    if pad_below > 0 {
        let clip_start: u32 = if h > 0 {
            h - 1
        } else {
            0
        };
        let clipped = match src.clip_to(Rect { x: 0, y: clip_start, width: w, height: 1 }) {
            Ok(v) => v,
            Err(e) => {
                proof {
                    assert(false);
                }
                return Err(e);
            },
        };
        let scaled = match clipped.scale_by(1, 1, pad_below, 1) {
            Ok(v) => v,
            Err(e) => {
                proof {
                    assert(false);
                }
                return Err(e);
            },
        };
        let placed = match scaled.offset(0, pad_above + h) {
            Ok(v) => v,
            Err(e) => {
                proof {
                    assert(false);
                }
                return Err(e);
            },
        };
        g.push(placed);
    }
    let ghost items = g.items@;
    let node = g.into_node();
    proof {
        if pad_above > 0 {
            assert(items.drop_last().drop_last() =~= if pad_below > 0 {
                seq![items[0], items[1]].drop_last()
            } else {
                seq![items[0]].drop_last()
            });
        }
        lemma_pad_children_bounds(items);
    }
    Ok(node)
}

/// Helper: the bounds folds over two or three stacked pad slices.
proof fn lemma_pad_children_bounds(s: Seq<RcRenderable>)
    requires
        1 <= s.len() <= 3,
    ensures
        s.len() == 1 ==> max_width(s) == (*s[0].0).width && max_height(s) == (*s[0].0).height,
        s.len() == 2 ==> max_width(s) == max2((*s[0].0).width as int, (*s[1].0).width as int)
            && max_height(s) == max2((*s[0].0).height as int, (*s[1].0).height as int),
        s.len() == 3 ==> max_width(s) == max2(
            max2((*s[0].0).width as int, (*s[1].0).width as int),
            (*s[2].0).width as int,
        ) && max_height(s) == max2(
            max2((*s[0].0).height as int, (*s[1].0).height as int),
            (*s[2].0).height as int,
        ),
    decreases s.len(),
{
    let s1 = s.drop_last();
    if s.len() == 1 {
        assert(s1 =~= Seq::<RcRenderable>::empty());
        assert(max_width(s1) == 0);
        assert(max_height(s1) == 0);
    } else {
        lemma_pad_children_bounds(s1);
        assert(s1[0] == s[0]);
        if s.len() == 3 {
            assert(s1[1] == s[1]);
        }
    }
    assert(s.last() == s[s.len() - 1]);
    assert(max_width(s) == if (*s.last().0).width as int > max_width(s1) {
        (*s.last().0).width as int
    } else {
        max_width(s1)
    });
    assert(max_height(s) == if (*s.last().0).height as int > max_height(s1) {
        (*s.last().0).height as int
    } else {
        max_height(s1)
    });
}

pub open spec fn max2(a: int, b: int) -> int {
    if a > b {
        a
    } else {
        b
    }
}

/// Edge-stretch padding left and right, the transposed twin of
/// `pad_vertical`: one-pixel columns from the left and right edges are
/// stretched to fill the pads.  Padding a W by H source by (l, r)
/// yields bounds (W + l + r) by H.
pub fn pad_sides(src: &RcRenderable, pad_left: u32, pad_right: u32) -> (res: Result<
    RcRenderable,
    UpdaterError,
>)
    requires
        src.wf(),
    ensures
        res.is_ok() <==> pad_left + src.spec_width() + pad_right <= MAX_DIM,
        res.is_ok() ==> ({
            let n = *res.unwrap().0;
            &&& n.wf()
            &&& n.width == pad_left + src.spec_width() + pad_right
            &&& n.height == src.spec_height()
            &&& is_pad_sides_of(res.unwrap(), *src, pad_left, pad_right)
        }),
{
    let w = src.width();
    let h = src.height();
    if pad_left > MAX_DIM || (pad_left + w > MAX_DIM) || pad_right > MAX_DIM - (pad_left + w) {
        return Err(
            UpdaterError::GeometryOverflow {
                field: "pad_sides",
                value: (pad_left as u64) + (w as u64) + (pad_right as u64),
            },
        );
    }
    proof {
        assert(((w as int) * 1) / 1 == w as int && ((h as int) * 1) / 1 == h as int && (1 * (
        pad_left as int)) / 1 == pad_left as int && (1 * (pad_right as int)) / 1
            == pad_right as int && (1 * (h as int)) / 1 == h as int) by (nonlinear_arith);
    }
    let mut g = RenderGroup::new();
    if pad_left > 0 {
        let clipped = match src.clip_to(Rect { x: 0, y: 0, width: 1, height: h }) {
            Ok(v) => v,
            Err(e) => {
                proof {
                    assert(false);
                }
                return Err(e);
            },
        };
        let scaled = match clipped.scale_by(pad_left, 1, 1, 1) {
            Ok(v) => v,
            Err(e) => {
                proof {
                    assert(false);
                }
                return Err(e);
            },
        };
        let placed = match scaled.offset(0, 0) {
            Ok(v) => v,
            Err(e) => {
                proof {
                    assert(false);
                }
                return Err(e);
            },
        };
        g.push(placed);
    }
    let clipped = match src.clip_to(Rect { x: 0, y: 0, width: w, height: h }) {
        Ok(v) => v,
        Err(e) => {
            proof {
                assert(false);
            }
            return Err(e);
        },
    };
    let scaled = match clipped.scale_by(1, 1, 1, 1) {
        Ok(v) => v,
        Err(e) => {
            proof {
                assert(false);
            }
            return Err(e);
        },
    };
    let placed = match scaled.offset(pad_left, 0) {
        Ok(v) => v,
        Err(e) => {
            proof {
                assert(false);
            }
            return Err(e);
        },
    };
    g.push(placed);
    if pad_right > 0 {
        let clip_start: u32 = if w > 0 {
            w - 1
        } else {
            0
        };
        let clipped = match src.clip_to(Rect { x: clip_start, y: 0, width: 1, height: h }) {
            Ok(v) => v,
            Err(e) => {
                proof {
                    assert(false);
                }
                return Err(e);
            },
        };
        let scaled = match clipped.scale_by(pad_right, 1, 1, 1) {
            Ok(v) => v,
            Err(e) => {
                proof {
                    assert(false);
                }
                return Err(e);
            },
        };
        let placed = match scaled.offset(pad_left + w, 0) {
            Ok(v) => v,
            Err(e) => {
                proof {
                    assert(false);
                }
                return Err(e);
            },
        };
        g.push(placed);
    }
    let ghost items = g.items@;
    let node = g.into_node();
    proof {
        lemma_pad_children_bounds(items);
    }
    Ok(node)
}

impl RcRenderable {
    /// Centers this subtree in front of `other`, which must be at least
    /// as large in both directions.
    pub fn center_in_front_of(&self, other: &RcRenderable) -> (r: RcRenderable)
        requires
            self.wf(),
            other.wf(),
            self.spec_width() <= other.spec_width(),
            self.spec_height() <= other.spec_height(),
        ensures
            (*r.0).wf(),
            (*r.0).width == other.spec_width(),
            (*r.0).height == other.spec_height(),
            match (*r.0).kind {
                NodeKind::Group { children } => {
                    &&& children@.len() == 2
                    &&& children@[0] == *other
                    &&& match (*children@[1].0).kind {
                        NodeKind::Translate { child, dx, dy } => {
                            &&& child == *self
                            &&& dx == (other.spec_width() - self.spec_width()) / 2
                            &&& dy == (other.spec_height() - self.spec_height()) / 2
                        },
                        _ => false,
                    }
                },
                _ => false,
            },
    {
        let tw = self.width();
        let th = self.height();
        let ow = other.width();
        let oh = other.height();
        let placed = match self.offset((ow - tw) / 2, (oh - th) / 2) {
            Ok(v) => v,
            Err(e) => {
                proof {
                    assert(false);
                }
                let dummy = self.clone();
                return dummy;
            },
        };
        let mut g = RenderGroup::new();
        g.push(other.clone());
        g.push(placed);
        let ghost items = g.items@;
        let node = g.into_node();
        proof {
            lemma_pad_children_bounds(items);
        }
        node
    }
}

} // verus!
