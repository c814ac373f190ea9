//! The export container and its render pipeline.
//!
//! A [`StrokeContent`] bundles a sequence of shared, immutable stroke
//! entities with an optional bounds override and an optional background.
//! Its effective bounds are resolved on every query: the override when
//! present, else the union of all entity bounding volumes, else absent.
//!
//! Rendering emits a flat sequence of [`DrawCommand`]s: a background pass
//! clipped to the margin-loosened bounds, then a content pass clipped to the
//! tight bounds in which each entity is drawn in order — possibly through a
//! darkest-color-reduced copy when print optimization asks for it and no
//! raster image's bounding volume fully contains the entity. A drawing
//! backend replays the commands; clip scopes are balanced on every command
//! sequence this module emits.

use crate::geometry::{Aabb, Vec2, COORD_LIMIT};
use crate::strokes::{Background, Stroke};
use std::sync::Arc;
use vstd::prelude::*;

verus! {

/// One step of the render pipeline, addressed to a drawing backend.
#[derive(Clone, Copy, Debug, PartialEq)]
pub enum DrawCommand {
    /// Save the backend's clip/transform state, then clip to the rectangle.
    PushClip(Aabb),
    /// Restore the backend's clip/transform state.
    PopClip,
    /// Draw the background over the given bounds.
    DrawBackground { background: Background, bounds: Aabb, draw_pattern: bool, optimize_printing: bool },
    /// Draw the entity.
    DrawStroke(Stroke),
}

/// Why a render attempt failed.
#[derive(Clone, Copy, Debug, PartialEq, Eq)]
pub enum RenderError {
    /// The margin-loosened effective bounds came out inverted
    /// (`mins > maxs` on some axis).
    InvalidBounds,
}

impl RenderError {
    /// A short description of the error.
    pub fn message(&self) -> (r: &'static str)
        ensures
            r@ =~= "loosened content bounds are inverted"@,
    {
        proof {
            reveal_strlit("loosened content bounds are inverted");
        }
        "loosened content bounds are inverted"
    }
}

/// A self-contained vector document: the commands of one render of an export
/// container, translated so the document's bounds start at the origin.
#[derive(Clone, Debug, PartialEq)]
pub struct Svg {
    /// The document bounds; `mins` is always `(0, 0)`.
    pub bounds: Aabb,
    /// The drawing commands, in replay order.
    pub commands: Vec<DrawCommand>,
}

/// A collection of strokes with optional bounds and background, the unit of
/// export and clipboard transfer.
#[derive(Clone, Debug)]
pub struct StrokeContent {
    /// The stroke entities, in drawing order, immutably shared.
    pub strokes: Vec<Arc<Stroke>>,
    /// The optional bounds override. When present it fully determines the
    /// effective bounds; when absent they are computed from the strokes.
    pub bounds: Option<Aabb>,
    /// The optional background.
    pub background: Option<Background>,
}

impl Default for StrokeContent {
    /// An empty container: no strokes, no bounds override, no background.
    fn default() -> (r: Self)
        ensures
            r.strokes@.len() == 0,
            r.bounds is None,
            r.background is None,
    {
        StrokeContent { strokes: Vec::new(), bounds: None, background: None }
    }
}

impl StrokeContent {
    /// The MIME type identifying serialized stroke content on the clipboard.
    pub const MIME_TYPE: &'static str = "application/rnote-stroke-content";

    /// The margin used when exporting content to the clipboard, in document
    /// units.
    pub const CLIPBOARD_EXPORT_MARGIN: i64 = 6;

    /// Every bounding volume the container holds is within [`COORD_LIMIT`].
    pub open spec fn wf(self) -> bool {
        &&& match self.bounds {
            Some(b) => b.spec_in_range(),
            None => true,
        }
        &&& forall|i: int|
            0 <= i < self.strokes@.len() ==> (*self.strokes@[i]).spec_bounds().spec_in_range()
    }

    /// Replaces the bounds override.
    pub fn with_bounds(self, bounds: Option<Aabb>) -> (r: Self)
        ensures
            r.strokes == self.strokes,
            r.bounds == bounds,
            r.background == self.background,
    {
        StrokeContent { strokes: self.strokes, bounds, background: self.background }
    }

    /// Replaces the strokes.
    pub fn with_strokes(self, strokes: Vec<Arc<Stroke>>) -> (r: Self)
        ensures
            r.strokes == strokes,
            r.bounds == self.bounds,
            r.background == self.background,
    {
        StrokeContent { strokes, bounds: self.bounds, background: self.background }
    }

    /// Replaces the background.
    pub fn with_background(self, background: Option<Background>) -> (r: Self)
        ensures
            r.strokes == self.strokes,
            r.bounds == self.bounds,
            r.background == background,
    {
        StrokeContent { strokes: self.strokes, bounds: self.bounds, background }
    }

    /// The union of the bounding volumes of `ss`, folded left to right from
    /// the merge identity [`Aabb::spec_new_invalid`].
    pub open spec fn spec_merged_bounds(ss: Seq<Arc<Stroke>>) -> Aabb
        decreases ss.len(),
    {
        if ss.len() == 0 {
            Aabb::spec_new_invalid()
        } else {
            Self::spec_merged_bounds(ss.drop_last()).spec_merged((*ss.last()).spec_bounds())
        }
    }

    /// The effective bounds: the override when present, else the union of all
    /// stroke bounding volumes, else absent.
    pub open spec fn spec_effective_bounds(self) -> Option<Aabb> {
        match self.bounds {
            Some(b) => Some(b),
            None => if self.strokes@.len() == 0 {
                None
            } else {
                Some(Self::spec_merged_bounds(self.strokes@))
            },
        }
    }

    /// The effective bounding volume of the content.
    ///
    /// The override is returned unchanged when present. Otherwise the stroke
    /// bounding volumes are merged in sequence order; an empty container has
    /// no bounds. Recomputed on every call, never cached.
    pub fn bounds(&self) -> (r: Option<Aabb>)
        ensures
            r == self.spec_effective_bounds(),
    {
        if self.bounds.is_some() {
            return self.bounds;
        }
        if self.strokes.len() == 0 {
            return None;
        }
        let mut acc = Aabb::new_invalid();
        let mut i: usize = 0;
        while i < self.strokes.len()
            invariant
                i <= self.strokes@.len(),
                acc == Self::spec_merged_bounds(self.strokes@.take(i as int)),
            decreases self.strokes@.len() - i,
        {
            let s: &Stroke = &*self.strokes[i];
            acc = acc.merged(&s.bounds());
            proof {
                let pre = self.strokes@.take(i as int);
                let post = self.strokes@.take(i as int + 1);
                assert(post.drop_last() =~= pre);
                assert(post.last() == self.strokes@[i as int]);
            }
            i += 1;
        }
        proof {
            assert(self.strokes@.take(self.strokes@.len() as int) =~= self.strokes@);
        }
        Some(acc)
    }

    /// The merged bounds of in-range strokes are in range.
    proof fn lemma_merged_bounds_in_range(ss: Seq<Arc<Stroke>>)
        requires
            forall|i: int| 0 <= i < ss.len() ==> (*ss[i]).spec_bounds().spec_in_range(),
        ensures
            Self::spec_merged_bounds(ss).spec_in_range(),
        decreases ss.len(),
    {
        if ss.len() > 0 {
            assert(forall|i: int|
                0 <= i < ss.drop_last().len() ==> (*ss.drop_last()[i]).spec_bounds().spec_in_range());
            Self::lemma_merged_bounds_in_range(ss.drop_last());
        }
    }

    /// The effective bounds of a well-formed container are in range.
    pub proof fn lemma_effective_bounds_in_range(self)
        requires
            self.wf(),
        ensures
            match self.spec_effective_bounds() {
                Some(b) => b.spec_in_range(),
                None => true,
            },
    {
        if self.bounds is None && self.strokes@.len() > 0 {
            Self::lemma_merged_bounds_in_range(self.strokes@);
        }
    }

    /// The size of the effective bounding volume, when there is one.
    pub fn size(&self) -> (r: Option<Vec2>)
        requires
            self.wf(),
        ensures
            r == match self.spec_effective_bounds() {
                Some(b) => Some(b.spec_extents()),
                None => None::<Vec2>,
            },
    {
        proof {
            self.lemma_effective_bounds_in_range();
        }
        match self.bounds() {
            Some(b) => Some(b.extents()),
            None => None,
        }
    }

    /// The bounding volumes of the raster-backed entities of `ss`, in
    /// sequence order.
    pub open spec fn spec_image_bounds(ss: Seq<Arc<Stroke>>) -> Seq<Aabb>
        decreases ss.len(),
    {
        if ss.len() == 0 {
            Seq::empty()
        } else {
            Self::spec_image_bounds(ss.drop_last()) + if (*ss.last()).spec_is_image() {
                seq![(*ss.last()).spec_bounds()]
            } else {
                Seq::empty()
            }
        }
    }

    /// Whether print optimization reduces entity `i` to its darkest color:
    /// it does exactly when no raster-backed entity's bounding volume fully
    /// contains the entity's bounding volume.
    pub open spec fn spec_reduces_entity(ss: Seq<Arc<Stroke>>, i: int) -> bool
        recommends
            0 <= i < ss.len(),
    {
        forall|k: int|
            0 <= k < Self::spec_image_bounds(ss).len() ==> !Self::spec_image_bounds(
                ss,
            )[k].spec_contains((*ss[i]).spec_bounds())
    }

    /// The content-pass command for entity `i`.
    pub open spec fn spec_entity_command(ss: Seq<Arc<Stroke>>, optimize_printing: bool, i: int) -> DrawCommand
        recommends
            0 <= i < ss.len(),
    {
        if optimize_printing && Self::spec_reduces_entity(ss, i) {
            DrawCommand::DrawStroke((*ss[i]).spec_darkened())
        } else {
            DrawCommand::DrawStroke(*ss[i])
        }
    }

    /// The command sequence of one render: a background pass clipped to the
    /// loosened bounds, then a content pass clipped to the tight bounds with
    /// one draw per entity in order. Meaningful when the effective bounds are
    /// present and their loosening is valid.
    pub open spec fn spec_draw_commands(
        self,
        draw_background: bool,
        draw_pattern: bool,
        optimize_printing: bool,
        margin: i64,
    ) -> Seq<DrawCommand>
        recommends
            self.spec_effective_bounds() is Some,
    {
        let b = self.spec_effective_bounds().unwrap();
        let lb = b.spec_loosened(margin);
        seq![DrawCommand::PushClip(lb)] + (match self.background {
            Some(bg) => if draw_background {
                seq![
                    (DrawCommand::DrawBackground {
                        background: bg,
                        bounds: lb,
                        draw_pattern,
                        optimize_printing,
                    }),
                ]
            } else {
                Seq::empty()
            },
            None => Seq::empty(),
        }) + seq![DrawCommand::PopClip, DrawCommand::PushClip(b)] + Seq::new(
            self.strokes@.len(),
            |i: int| Self::spec_entity_command(self.strokes@, optimize_printing, i),
        ) + seq![DrawCommand::PopClip]
    }

    /// Renders the container into its drawing commands.
    ///
    /// Absent effective bounds succeed as a no-op: the command sequence is
    /// empty. Present bounds whose margin-loosening is inverted are an error.
    /// Otherwise the sequence holds the background pass (clipped to the
    /// loosened bounds, drawn only when requested and configured) followed by
    /// the content pass (clipped to the tight bounds), in which an entity is
    /// drawn through a darkest-color-reduced copy exactly when
    /// `optimize_printing` is set and no raster image's bounding volume fully
    /// contains it. The container itself is never changed; reduction happens
    /// on a copy.
    ///
    /// The raster resampling scale is the replaying backend's parameter: it
    /// does not change the command sequence, so it does not appear here.
    pub fn draw_commands(
        &self,
        draw_background: bool,
        draw_pattern: bool,
        optimize_printing: bool,
        margin: i64,
    ) -> (res: Result<Vec<DrawCommand>, RenderError>)
        requires
            self.wf(),
            -COORD_LIMIT <= margin <= COORD_LIMIT,
        ensures
            match self.spec_effective_bounds() {
                None => res matches Ok(v) && v@ =~= Seq::<DrawCommand>::empty(),
                Some(b) => if b.spec_loosened(margin).spec_valid() {
                    res matches Ok(v) && v@ =~= self.spec_draw_commands(
                        draw_background,
                        draw_pattern,
                        optimize_printing,
                        margin,
                    )
                } else {
                    res matches Err(e) && e == RenderError::InvalidBounds
                },
            },
    {
        let bounds = match self.bounds() {
            Some(b) => b,
            None => {
                return Ok(Vec::new());
            },
        };
        proof {
            self.lemma_effective_bounds_in_range();
        }
        let bounds_loosened = bounds.loosened(margin);
        if !bounds_loosened.valid() {
            return Err(RenderError::InvalidBounds);
        }
        let mut cmds: Vec<DrawCommand> = Vec::new();
        cmds.push(DrawCommand::PushClip(bounds_loosened));
        if draw_background {
            match self.background {
                Some(bg) => {
                    cmds.push(
                        DrawCommand::DrawBackground {
                            background: bg,
                            bounds: bounds_loosened,
                            draw_pattern,
                            optimize_printing,
                        },
                    );
                },
                None => {},
            }
        }
        cmds.push(DrawCommand::PopClip);
        cmds.push(DrawCommand::PushClip(bounds));
        let ghost prefix = cmds@;

        let image_bounds = self.collect_image_bounds();
        let mut i: usize = 0;
        while i < self.strokes.len()
            invariant
                i <= self.strokes@.len(),
                image_bounds@ == Self::spec_image_bounds(self.strokes@),
                cmds@ =~= prefix + Seq::new(
                    i as nat,
                    |k: int| Self::spec_entity_command(self.strokes@, optimize_printing, k),
                ),
            decreases self.strokes@.len() - i,
        {
            let s: Stroke = *self.strokes[i];
            let stroke_bounds = s.bounds();
            if optimize_printing && !any_contains(&image_bounds, &stroke_bounds) {
                let mut darkest_color_stroke = s;
                darkest_color_stroke.set_to_darkest_color();
                cmds.push(DrawCommand::DrawStroke(darkest_color_stroke));
            } else {
                cmds.push(DrawCommand::DrawStroke(s));
            }
            i += 1;
        }
        cmds.push(DrawCommand::PopClip);
        Ok(cmds)
    }

    /// The bounding volumes of the container's raster-backed entities, in
    /// order.
    fn collect_image_bounds(&self) -> (r: Vec<Aabb>)
        ensures
            r@ == Self::spec_image_bounds(self.strokes@),
    {
        let mut image_bounds: Vec<Aabb> = Vec::new();
        let mut i: usize = 0;
        while i < self.strokes.len()
            invariant
                i <= self.strokes@.len(),
                image_bounds@ =~= Self::spec_image_bounds(self.strokes@.take(i as int)),
            decreases self.strokes@.len() - i,
        {
            let s: &Stroke = &*self.strokes[i];
            match s {
                Stroke::BitmapImage(image) => image_bounds.push(image.bounds),
                Stroke::VectorImage(image) => image_bounds.push(image.bounds),
                Stroke::BrushStroke(_) => {},
            }
            proof {
                let pre = self.strokes@.take(i as int);
                let post = self.strokes@.take(i as int + 1);
                assert(post.drop_last() =~= pre);
                assert(post.last() == self.strokes@[i as int]);
            }
            i += 1;
        }
        proof {
            assert(self.strokes@.take(self.strokes@.len() as int) =~= self.strokes@);
        }
        image_bounds
    }
}

impl StrokeContent {
    /// The union facts about the merged stroke bounds: the merge contains
    /// every stroke's bounding volume and each of its four sides is attained
    /// by some stroke.
    proof fn lemma_merged_bounds_union(ss: Seq<Arc<Stroke>>)
        requires
            ss.len() > 0,
            forall|i: int| 0 <= i < ss.len() ==> (#[trigger] (*ss[i]).spec_bounds()).spec_in_range(),
        ensures
            ({
                let m = Self::spec_merged_bounds(ss);
                &&& forall|i: int|
                    0 <= i < ss.len() ==> m.spec_contains(#[trigger] (*ss[i]).spec_bounds())
                &&& exists|i: int|
                    0 <= i < ss.len() && m.mins.x == (*ss[i]).spec_bounds().mins.x
                &&& exists|i: int|
                    0 <= i < ss.len() && m.mins.y == (*ss[i]).spec_bounds().mins.y
                &&& exists|i: int|
                    0 <= i < ss.len() && m.maxs.x == (*ss[i]).spec_bounds().maxs.x
                &&& exists|i: int|
                    0 <= i < ss.len() && m.maxs.y == (*ss[i]).spec_bounds().maxs.y
            }),
        decreases ss.len(),
    {
        let m = Self::spec_merged_bounds(ss);
        let lastb = (*ss.last()).spec_bounds();
        if ss.len() == 1 {
            assert(Self::spec_merged_bounds(ss.drop_last()) == Aabb::spec_new_invalid());
            assert(m == Aabb::spec_new_invalid().spec_merged(lastb));
            assert(m == lastb);
            assert(0 <= 0 < ss.len() && m.mins.x == (*ss[0]).spec_bounds().mins.x);
            assert(0 <= 0 < ss.len() && m.mins.y == (*ss[0]).spec_bounds().mins.y);
            assert(0 <= 0 < ss.len() && m.maxs.x == (*ss[0]).spec_bounds().maxs.x);
            assert(0 <= 0 < ss.len() && m.maxs.y == (*ss[0]).spec_bounds().maxs.y);
        } else {
            let rest = ss.drop_last();
            let m0 = Self::spec_merged_bounds(rest);
            Self::lemma_merged_bounds_union(rest);
            let n = ss.len() - 1;
            assert forall|i: int| 0 <= i < ss.len() implies m.spec_contains(
                #[trigger] (*ss[i]).spec_bounds(),
            ) by {
                if i < n {
                    assert(m0.spec_contains((*rest[i]).spec_bounds()));
                }
            }
            if m0.mins.x <= lastb.mins.x {
                let i0 = choose|i: int| 0 <= i < rest.len() && m0.mins.x == (*rest[i]).spec_bounds().mins.x;
                assert(0 <= i0 < ss.len() && m.mins.x == (*ss[i0]).spec_bounds().mins.x);
            } else {
                assert(m.mins.x == (*ss[n]).spec_bounds().mins.x);
            }
            if m0.mins.y <= lastb.mins.y {
                let i0 = choose|i: int| 0 <= i < rest.len() && m0.mins.y == (*rest[i]).spec_bounds().mins.y;
                assert(0 <= i0 < ss.len() && m.mins.y == (*ss[i0]).spec_bounds().mins.y);
            } else {
                assert(m.mins.y == (*ss[n]).spec_bounds().mins.y);
            }
            if m0.maxs.x >= lastb.maxs.x {
                let i0 = choose|i: int| 0 <= i < rest.len() && m0.maxs.x == (*rest[i]).spec_bounds().maxs.x;
                assert(0 <= i0 < ss.len() && m.maxs.x == (*ss[i0]).spec_bounds().maxs.x);
            } else {
                assert(m.maxs.x == (*ss[n]).spec_bounds().maxs.x);
            }
            if m0.maxs.y >= lastb.maxs.y {
                let i0 = choose|i: int| 0 <= i < rest.len() && m0.maxs.y == (*rest[i]).spec_bounds().maxs.y;
                assert(0 <= i0 < ss.len() && m.maxs.y == (*ss[i0]).spec_bounds().maxs.y);
            } else {
                assert(m.maxs.y == (*ss[n]).spec_bounds().maxs.y);
            }
        }
    }

    /// With no bounds override and at least one entity, the effective bounds
    /// are the union of all entities' bounding volumes: they contain every
    /// entity's bounding volume, and each of the four sides is attained by
    /// some entity.
    pub proof fn lemma_effective_bounds_union(self)
        requires
            self.wf(),
            self.bounds is None,
            self.strokes@.len() > 0,
        ensures
            self.spec_effective_bounds() is Some,
            ({
                let m = self.spec_effective_bounds().unwrap();
                let ss = self.strokes@;
                &&& forall|i: int|
                    0 <= i < ss.len() ==> m.spec_contains(#[trigger] (*ss[i]).spec_bounds())
                &&& exists|i: int|
                    0 <= i < ss.len() && m.mins.x == (*ss[i]).spec_bounds().mins.x
                &&& exists|i: int|
                    0 <= i < ss.len() && m.mins.y == (*ss[i]).spec_bounds().mins.y
                &&& exists|i: int|
                    0 <= i < ss.len() && m.maxs.x == (*ss[i]).spec_bounds().maxs.x
                &&& exists|i: int|
                    0 <= i < ss.len() && m.maxs.y == (*ss[i]).spec_bounds().maxs.y
            }),
    {
        Self::lemma_merged_bounds_union(self.strokes@);
    }

    /// The effective bounds are invariant to entity order: two containers
    /// without an override whose entity sequences hold the same entities,
    /// as multisets, have the same effective bounds.
    pub proof fn lemma_effective_bounds_order_invariant(self, other: Self)
        requires
            self.wf(),
            other.wf(),
            self.bounds is None,
            other.bounds is None,
            self.strokes@.to_multiset() == other.strokes@.to_multiset(),
        ensures
            self.spec_effective_bounds() == other.spec_effective_bounds(),
    {
        let ss1 = self.strokes@;
        let ss2 = other.strokes@;
        ss1.to_multiset_ensures();
        ss2.to_multiset_ensures();
        if ss1.len() == 0 {
            assert(ss2.len() == 0);
        } else {
            assert(ss2.len() > 0);
            self.lemma_effective_bounds_union();
            other.lemma_effective_bounds_union();
            let m1 = self.spec_effective_bounds().unwrap();
            let m2 = other.spec_effective_bounds().unwrap();
            Self::lemma_union_antisymmetry(ss1, ss2, m1, m2);
            Self::lemma_union_antisymmetry(ss2, ss1, m2, m1);
            assert(m1.mins == m2.mins);
            assert(m1.maxs == m2.maxs);
        }
    }

    /// Half of the order-invariance argument: a box containing all of `ss2`'s
    /// stroke bounds, held against one whose sides are attained within `ss1`,
    /// bounds it from inside.
    proof fn lemma_union_antisymmetry(ss1: Seq<Arc<Stroke>>, ss2: Seq<Arc<Stroke>>, m1: Aabb, m2: Aabb)
        requires
            ss1.to_multiset() == ss2.to_multiset(),
            forall|i: int| 0 <= i < ss2.len() ==> m2.spec_contains(#[trigger] (*ss2[i]).spec_bounds()),
            exists|i: int| 0 <= i < ss1.len() && m1.mins.x == (*ss1[i]).spec_bounds().mins.x,
            exists|i: int| 0 <= i < ss1.len() && m1.mins.y == (*ss1[i]).spec_bounds().mins.y,
            exists|i: int| 0 <= i < ss1.len() && m1.maxs.x == (*ss1[i]).spec_bounds().maxs.x,
            exists|i: int| 0 <= i < ss1.len() && m1.maxs.y == (*ss1[i]).spec_bounds().maxs.y,
        ensures
            m2.mins.x <= m1.mins.x,
            m2.mins.y <= m1.mins.y,
            m1.maxs.x <= m2.maxs.x,
            m1.maxs.y <= m2.maxs.y,
    {
        ss1.to_multiset_ensures();
        ss2.to_multiset_ensures();
        let i1 = choose|i: int| 0 <= i < ss1.len() && m1.mins.x == (*ss1[i]).spec_bounds().mins.x;
        Self::lemma_same_entities_transfer(ss1, ss2, i1);
        let i2 = choose|i: int| 0 <= i < ss1.len() && m1.mins.y == (*ss1[i]).spec_bounds().mins.y;
        Self::lemma_same_entities_transfer(ss1, ss2, i2);
        let i3 = choose|i: int| 0 <= i < ss1.len() && m1.maxs.x == (*ss1[i]).spec_bounds().maxs.x;
        Self::lemma_same_entities_transfer(ss1, ss2, i3);
        let i4 = choose|i: int| 0 <= i < ss1.len() && m1.maxs.y == (*ss1[i]).spec_bounds().maxs.y;
        Self::lemma_same_entities_transfer(ss1, ss2, i4);
    }

    /// An entity of `ss1` occurs in `ss2` when both hold the same entities as
    /// multisets.
    proof fn lemma_same_entities_transfer(ss1: Seq<Arc<Stroke>>, ss2: Seq<Arc<Stroke>>, i: int)
        requires
            ss1.to_multiset() == ss2.to_multiset(),
            0 <= i < ss1.len(),
        ensures
            exists|j: int| 0 <= j < ss2.len() && ss2[j] == ss1[i],
    {
        ss1.to_multiset_ensures();
        ss2.to_multiset_ensures();
        assert(ss1.contains(ss1[i]));
        assert(ss1.to_multiset().count(ss1[i]) > 0);
        assert(ss2.contains(ss1[i]));
    }

    /// An empty container with no bounds override has no effective bounds,
    /// and hence no size; by the render contracts it also renders as a
    /// no-op: [`Self::draw_commands`] emits no command and
    /// [`Self::generate_svg`] yields no document, neither with an error.
    pub proof fn lemma_empty_content_is_absent(self)
        requires
            self.bounds is None,
            self.strokes@.len() == 0,
        ensures
            self.spec_effective_bounds() is None,
    {
    }

    /// A bounds override fully determines the effective bounds, whatever the
    /// entities — including none at all.
    pub proof fn lemma_override_determines_bounds(self)
        requires
            self.bounds is Some,
        ensures
            self.spec_effective_bounds() == self.bounds,
    {
    }

    /// For a fixed target box, no collected image bounding volume contains it
    /// exactly when no raster-backed entity's bounding volume contains it.
    proof fn lemma_image_bounds_cover(ss: Seq<Arc<Stroke>>, sb: Aabb)
        ensures
            (forall|k: int|
                0 <= k < Self::spec_image_bounds(ss).len() ==> !(#[trigger] Self::spec_image_bounds(
                    ss,
                )[k]).spec_contains(sb)) <==> (forall|j: int|
                (0 <= j < ss.len() && (*ss[j]).spec_is_image())
                    ==> !(#[trigger] (*ss[j]).spec_bounds()).spec_contains(sb)),
        decreases ss.len(),
    {
        if ss.len() > 0 {
            let rest = ss.drop_last();
            Self::lemma_image_bounds_cover(rest, sb);
            let ib = Self::spec_image_bounds(ss);
            let ib0 = Self::spec_image_bounds(rest);
            let n = ss.len() - 1;
            if (*ss.last()).spec_is_image() {
                assert(ib == ib0 + seq![(*ss.last()).spec_bounds()]);
            } else {
                assert(ib =~= ib0);
            }
            if forall|k: int| 0 <= k < ib.len() ==> !(#[trigger] ib[k]).spec_contains(sb) {
                assert forall|k: int| 0 <= k < ib0.len() implies !(#[trigger] ib0[k]).spec_contains(
                    sb,
                ) by {
                    assert(ib0[k] == ib[k]);
                }
                assert forall|j: int| (0 <= j < ss.len() && (*ss[j]).spec_is_image()) implies !(
                #[trigger] (*ss[j]).spec_bounds()).spec_contains(sb) by {
                    if j < n {
                        assert((*rest[j]).spec_bounds() == (*ss[j]).spec_bounds());
                    } else {
                        assert(ib[ib.len() - 1] == (*ss.last()).spec_bounds());
                    }
                }
            }
            if forall|j: int|
                (0 <= j < ss.len() && (*ss[j]).spec_is_image()) ==> !(
                #[trigger] (*ss[j]).spec_bounds()).spec_contains(sb) {
                assert forall|k: int| 0 <= k < ib.len() implies !(#[trigger] ib[k]).spec_contains(
                    sb,
                ) by {
                    assert(forall|j: int|
                        (0 <= j < rest.len() && (*rest[j]).spec_is_image()) ==> !(
                        #[trigger] (*rest[j]).spec_bounds()).spec_contains(sb));
                    if k >= ib0.len() {
                        assert(ib[k] == (*ss[n]).spec_bounds());
                    }
                }
            }
        }
    }

    /// How far into the command sequence the content pass's entity commands
    /// start: after the background pass's push, its optional background draw,
    /// its pop, and the content pass's push.
    pub open spec fn spec_content_offset(self, draw_background: bool) -> int {
        if draw_background && self.background is Some {
            4
        } else {
            3
        }
    }

    /// Where each entity's command stands and what it is, under print
    /// optimization: an entity whose bounding volume is fully contained in
    /// some raster-backed entity's bounding volume is drawn unmodified; any
    /// other entity is drawn as its darkest-color-reduced copy. The container
    /// itself carries the command's entity as a copy, so its own shared
    /// entities are never changed.
    pub proof fn lemma_print_optimization(
        self,
        draw_background: bool,
        draw_pattern: bool,
        margin: i64,
        i: int,
    )
        requires
            self.spec_effective_bounds() is Some,
            0 <= i < self.strokes@.len(),
        ensures
            ({
                let cmds = self.spec_draw_commands(draw_background, draw_pattern, true, margin);
                let off = self.spec_content_offset(draw_background);
                let ss = self.strokes@;
                let s = *ss[i];
                let enclosed = exists|j: int|
                    0 <= j < ss.len() && (*ss[j]).spec_is_image() && (#[trigger] (
                    *ss[j]).spec_bounds()).spec_contains(s.spec_bounds());
                &&& cmds.len() == off + ss.len() + 1
                &&& (enclosed ==> cmds[off + i] == DrawCommand::DrawStroke(s))
                &&& (!enclosed ==> cmds[off + i] == DrawCommand::DrawStroke(s.spec_darkened()))
            }),
    {
        let cmds = self.spec_draw_commands(draw_background, draw_pattern, true, margin);
        let off = self.spec_content_offset(draw_background);
        let ss = self.strokes@;
        let s = *ss[i];
        Self::lemma_image_bounds_cover(ss, s.spec_bounds());
        assert(cmds[off + i] == Self::spec_entity_command(ss, true, i));
    }
}

/// A coordinate vector no farther than twice [`COORD_LIMIT`] from the origin:
/// what loosening an in-range box by an in-range margin can produce.
pub open spec fn spec_in_loose_range(v: Vec2) -> bool {
    -2 * COORD_LIMIT <= v.x <= 2 * COORD_LIMIT && -2 * COORD_LIMIT <= v.y <= 2 * COORD_LIMIT
}

/// Every coordinate the command mentions is within twice [`COORD_LIMIT`].
pub open spec fn spec_command_in_loose_range(c: DrawCommand) -> bool {
    match c {
        DrawCommand::PushClip(a) => spec_in_loose_range(a.mins) && spec_in_loose_range(a.maxs),
        DrawCommand::PopClip => true,
        DrawCommand::DrawBackground { bounds, .. } => spec_in_loose_range(bounds.mins)
            && spec_in_loose_range(bounds.maxs),
        DrawCommand::DrawStroke(s) => spec_in_loose_range(s.spec_bounds().mins)
            && spec_in_loose_range(s.spec_bounds().maxs),
    }
}

/// What translating a vector by `(dx, dy)` yields.
pub open spec fn spec_translate_vec2(v: Vec2, dx: int, dy: int) -> Vec2 {
    Vec2 { x: (v.x + dx) as i64, y: (v.y + dy) as i64 }
}

/// What translating a box by `(dx, dy)` yields.
pub open spec fn spec_translate_aabb(a: Aabb, dx: int, dy: int) -> Aabb {
    Aabb { mins: spec_translate_vec2(a.mins, dx, dy), maxs: spec_translate_vec2(a.maxs, dx, dy) }
}

/// What translating an entity by `(dx, dy)` yields: the same entity with its
/// bounding volume moved.
pub open spec fn spec_translate_stroke(s: Stroke, dx: int, dy: int) -> Stroke {
    match s {
        Stroke::BrushStroke(b) => Stroke::BrushStroke(
            crate::strokes::BrushStroke {
                bounds: spec_translate_aabb(b.bounds, dx, dy),
                stroke_color: b.stroke_color,
                fill_color: b.fill_color,
            },
        ),
        Stroke::BitmapImage(i) => Stroke::BitmapImage(
            crate::strokes::Image { bounds: spec_translate_aabb(i.bounds, dx, dy) },
        ),
        Stroke::VectorImage(i) => Stroke::VectorImage(
            crate::strokes::Image { bounds: spec_translate_aabb(i.bounds, dx, dy) },
        ),
    }
}

/// What translating a command by `(dx, dy)` yields.
pub open spec fn spec_translate_command(c: DrawCommand, dx: int, dy: int) -> DrawCommand {
    match c {
        DrawCommand::PushClip(a) => DrawCommand::PushClip(spec_translate_aabb(a, dx, dy)),
        DrawCommand::PopClip => DrawCommand::PopClip,
        DrawCommand::DrawBackground { background, bounds, draw_pattern, optimize_printing } => (DrawCommand::DrawBackground {
            background,
            bounds: spec_translate_aabb(bounds, dx, dy),
            draw_pattern,
            optimize_printing,
        }),
        DrawCommand::DrawStroke(s) => DrawCommand::DrawStroke(spec_translate_stroke(s, dx, dy)),
    }
}

/// Translates a command by `(dx, dy)`.
fn translate_command(c: &DrawCommand, dx: i64, dy: i64) -> (r: DrawCommand)
    requires
        spec_command_in_loose_range(*c),
        -2 * COORD_LIMIT <= dx <= 2 * COORD_LIMIT,
        -2 * COORD_LIMIT <= dy <= 2 * COORD_LIMIT,
    ensures
        r == spec_translate_command(*c, dx as int, dy as int),
{
    match c {
        DrawCommand::PushClip(a) => DrawCommand::PushClip(translate_aabb(a, dx, dy)),
        DrawCommand::PopClip => DrawCommand::PopClip,
        DrawCommand::DrawBackground { background, bounds, draw_pattern, optimize_printing } => DrawCommand::DrawBackground {
            background: *background,
            bounds: translate_aabb(bounds, dx, dy),
            draw_pattern: *draw_pattern,
            optimize_printing: *optimize_printing,
        },
        DrawCommand::DrawStroke(s) => {
            match s {
                Stroke::BrushStroke(b) => DrawCommand::DrawStroke(
                    Stroke::BrushStroke(
                        crate::strokes::BrushStroke {
                            bounds: translate_aabb(&b.bounds, dx, dy),
                            stroke_color: b.stroke_color,
                            fill_color: b.fill_color,
                        },
                    ),
                ),
                Stroke::BitmapImage(i) => DrawCommand::DrawStroke(
                    Stroke::BitmapImage(
                        crate::strokes::Image { bounds: translate_aabb(&i.bounds, dx, dy) },
                    ),
                ),
                Stroke::VectorImage(i) => DrawCommand::DrawStroke(
                    Stroke::VectorImage(
                        crate::strokes::Image { bounds: translate_aabb(&i.bounds, dx, dy) },
                    ),
                ),
            }
        },
    }
}

/// Translates a box by `(dx, dy)`.
fn translate_aabb(a: &Aabb, dx: i64, dy: i64) -> (r: Aabb)
    requires
        spec_in_loose_range(a.mins),
        spec_in_loose_range(a.maxs),
        -2 * COORD_LIMIT <= dx <= 2 * COORD_LIMIT,
        -2 * COORD_LIMIT <= dy <= 2 * COORD_LIMIT,
    ensures
        r == spec_translate_aabb(*a, dx as int, dy as int),
{
    Aabb {
        mins: Vec2 { x: a.mins.x + dx, y: a.mins.y + dy },
        maxs: Vec2 { x: a.maxs.x + dx, y: a.maxs.y + dy },
    }
}

impl StrokeContent {
    /// Every command of a render of a well-formed container keeps its
    /// coordinates within twice [`COORD_LIMIT`].
    pub proof fn lemma_draw_commands_in_range(
        self,
        draw_background: bool,
        draw_pattern: bool,
        optimize_printing: bool,
        margin: i64,
    )
        requires
            self.wf(),
            -COORD_LIMIT <= margin <= COORD_LIMIT,
            self.spec_effective_bounds() is Some,
        ensures
            forall|i: int|
                0 <= i < self.spec_draw_commands(
                    draw_background,
                    draw_pattern,
                    optimize_printing,
                    margin,
                ).len() ==> spec_command_in_loose_range(
                    #[trigger] self.spec_draw_commands(
                        draw_background,
                        draw_pattern,
                        optimize_printing,
                        margin,
                    )[i],
                ),
    {
        self.lemma_effective_bounds_in_range();
        let cmds = self.spec_draw_commands(draw_background, draw_pattern, optimize_printing, margin);
        assert forall|i: int| 0 <= i < cmds.len() implies spec_command_in_loose_range(cmds[i]) by {
            let ss = self.strokes@;
            if cmds[i] matches DrawCommand::DrawStroke(s) {
                let k = choose|k: int|
                    0 <= k < ss.len() && cmds[i] == Self::spec_entity_command(
                        ss,
                        optimize_printing,
                        k,
                    );
                assert(exists|k: int|
                    0 <= k < ss.len() && cmds[i] == Self::spec_entity_command(
                        ss,
                        optimize_printing,
                        k,
                    ));
            }
        }
    }

    /// The commands of [`Self::spec_draw_commands`], translated so the
    /// loosened effective bounds start at the origin.
    pub open spec fn spec_svg_commands(
        self,
        draw_background: bool,
        draw_pattern: bool,
        optimize_printing: bool,
        margin: i64,
    ) -> Seq<DrawCommand>
        recommends
            self.spec_effective_bounds() is Some,
    {
        let lb = self.spec_effective_bounds().unwrap().spec_loosened(margin);
        self.spec_draw_commands(draw_background, draw_pattern, optimize_printing, margin).map_values(
            |c: DrawCommand| spec_translate_command(c, -lb.mins.x, -lb.mins.y),
        )
    }

    /// Generates a self-contained vector document of the container's rendered
    /// output.
    ///
    /// Absent effective bounds yield `Ok(None)`: empty content is nothing to
    /// export, not an error. Otherwise the render pipeline's commands are
    /// captured and the document is normalized so its origin is `(0, 0)`: the
    /// document bounds run from `(0, 0)` to the extents of the margin-loosened
    /// content bounds, and every command is translated accordingly. On
    /// in-range content the normalization is total, so, unlike a drawing
    /// failure, it never has to be given up.
    pub fn generate_svg(
        &self,
        draw_background: bool,
        draw_pattern: bool,
        optimize_printing: bool,
        margin: i64,
    ) -> (res: Result<Option<Svg>, RenderError>)
        requires
            self.wf(),
            -COORD_LIMIT <= margin <= COORD_LIMIT,
        ensures
            match self.spec_effective_bounds() {
                None => res matches Ok(o) && o is None,
                Some(b) => if b.spec_loosened(margin).spec_valid() {
                    res matches Ok(o) && o matches Some(svg) && svg.bounds.mins == (Vec2 {
                        x: 0,
                        y: 0,
                    }) && svg.bounds.maxs == b.spec_loosened(margin).spec_extents()
                        && svg.commands@ =~= self.spec_svg_commands(
                        draw_background,
                        draw_pattern,
                        optimize_printing,
                        margin,
                    )
                } else {
                    res matches Err(e) && e == RenderError::InvalidBounds
                },
            },
    {
        let bounds = match self.bounds() {
            Some(b) => b,
            None => {
                return Ok(None);
            },
        };
        proof {
            self.lemma_effective_bounds_in_range();
        }
        let bounds_loosened = bounds.loosened(margin);
        if !bounds_loosened.valid() {
            return Err(RenderError::InvalidBounds);
        }
        let cmds = match self.draw_commands(
            draw_background,
            draw_pattern,
            optimize_printing,
            margin,
        ) {
            Ok(c) => c,
            Err(e) => {
                return Err(e);
            },
        };
        proof {
            self.lemma_draw_commands_in_range(
                draw_background,
                draw_pattern,
                optimize_printing,
                margin,
            );
        }
        let dx = 0i64 - bounds_loosened.mins.x;
        let dy = 0i64 - bounds_loosened.mins.y;
        let mut translated: Vec<DrawCommand> = Vec::new();
        let mut i: usize = 0;
        while i < cmds.len()
            invariant
                i <= cmds@.len(),
                dx == -bounds_loosened.mins.x,
                dy == -bounds_loosened.mins.y,
                spec_in_loose_range(bounds_loosened.mins),
                forall|k: int|
                    0 <= k < cmds@.len() ==> spec_command_in_loose_range(#[trigger] cmds@[k]),
                translated@ =~= Seq::new(
                    i as nat,
                    |k: int| spec_translate_command(cmds@[k], dx as int, dy as int),
                ),
            decreases cmds@.len() - i,
        {
            translated.push(translate_command(&cmds[i], dx, dy));
            i += 1;
        }
        let svg_bounds = translate_aabb(&bounds_loosened, dx, dy);
        proof {
            let lb = bounds_loosened;
            let full = self.spec_svg_commands(
                draw_background,
                draw_pattern,
                optimize_printing,
                margin,
            );
            assert(translated@ =~= full);
        }
        Ok(Some(Svg { bounds: svg_bounds, commands: translated }))
    }
}

/// Whether some box of `boxes` fully contains `b`.
fn any_contains(boxes: &Vec<Aabb>, b: &Aabb) -> (r: bool)
    ensures
        r == exists|k: int| 0 <= k < boxes@.len() && boxes@[k].spec_contains(*b),
{
    let mut i: usize = 0;
    while i < boxes.len()
        invariant
            i <= boxes@.len(),
            forall|k: int| 0 <= k < i ==> !boxes@[k].spec_contains(*b),
        decreases boxes@.len() - i,
    {
        if boxes[i].contains(b) {
            return true;
        }
        i += 1;
    }
    false
}

} // verus!
