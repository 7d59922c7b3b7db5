//! The frustum clipper's decisions: how a segment lies to the camera's
//! boundary, and which triangles are left of a triangle that the boundary cuts.
//!
//! A point is translatable where it lies in front of the boundary. The points
//! themselves, and the places where a segment crosses the boundary, are the
//! caller's to compute; the clipper only arranges them.

use vstd::prelude::*;

verus! {

/// How a segment lies to the camera's boundary.
pub enum SegmentTranslatability<P> {
    /// Both ends are translatable.
    Translatable,
    /// One end is translatable and the other is not; the segment crosses the
    /// boundary in the given point.
    SemiTranslatable(P),
    /// Neither end is translatable.
    NonTranslatable,
}

/// How a segment lies to the boundary, given which of its ends are
/// translatable and the point in which its line crosses the boundary.
pub open spec fn classified<P>(can_a: bool, can_b: bool, crossing: P) -> SegmentTranslatability<P> {
    if can_a && can_b {
        SegmentTranslatability::Translatable
    } else if !can_a && !can_b {
        SegmentTranslatability::NonTranslatable
    } else {
        SegmentTranslatability::SemiTranslatable(crossing)
    }
}

/// How a segment lies to the boundary, given which of its ends are
/// translatable and the point in which its line crosses the boundary.
pub fn classify<P>(can_a: bool, can_b: bool, crossing: P) -> (r: SegmentTranslatability<P>)
    ensures
        r == classified(can_a, can_b, crossing),
{
    if can_a && can_b {
        SegmentTranslatability::Translatable
    } else if !can_a && !can_b {
        SegmentTranslatability::NonTranslatable
    } else {
        SegmentTranslatability::SemiTranslatable(crossing)
    }
}

/// The triangles, given by their vertices, that are left of the triangle `a`,
/// `b`, `c`, whose edges lie to the boundary as `ab`, `bc` and `ac` say; `None`
/// for a combination that the clipper is not defined for.
///
/// - The long edge `ac` is translatable: the triangle itself.
/// - The edge `bc` crosses the boundary, and so does `ac`: the two triangles
///   `a`, crossing of `ac`, crossing of `bc` and `a`, `b`, crossing of `bc`.
/// - The edge `bc` is not translatable, and `ab` and `ac` cross the boundary:
///   the triangle `a`, crossing of `ab`, crossing of `ac`.
/// - No edge is translatable or crosses the boundary: nothing.
pub open spec fn split<P>(
    a: P,
    b: P,
    c: P,
    ab: SegmentTranslatability<P>,
    bc: SegmentTranslatability<P>,
    ac: SegmentTranslatability<P>,
) -> Option<(Option<(P, P, P)>, Option<(P, P, P)>)> {
    match (ac, bc, ab) {
        (SegmentTranslatability::Translatable, _, _) => Some((Some((a, b, c)), None)),
        (
            SegmentTranslatability::SemiTranslatable(isect_ac),
            SegmentTranslatability::SemiTranslatable(isect_bc),
            _,
        ) => Some((Some((a, isect_ac, isect_bc)), Some((a, b, isect_bc)))),
        (
            SegmentTranslatability::SemiTranslatable(isect_ac),
            SegmentTranslatability::NonTranslatable,
            SegmentTranslatability::SemiTranslatable(isect_ab),
        ) => Some((Some((a, isect_ab, isect_ac)), None)),
        (
            SegmentTranslatability::NonTranslatable,
            SegmentTranslatability::NonTranslatable,
            SegmentTranslatability::NonTranslatable,
        ) => Some((None, None)),
        _ => None,
    }
}

/// The triangles that are left of a triangle, as `split` names them, or `None`
/// for a combination that the clipper is not defined for.
pub fn try_split_if_necessary<P: Copy>(
    a: P,
    b: P,
    c: P,
    ab: SegmentTranslatability<P>,
    bc: SegmentTranslatability<P>,
    ac: SegmentTranslatability<P>,
) -> (r: Option<[Option<(P, P, P)>; 2]>)
    ensures
        r.is_some() == split(a, b, c, ab, bc, ac).is_some(),
        r matches Some(triangles) ==> triangles[0] == split(a, b, c, ab, bc, ac).unwrap().0
            && triangles[1] == split(a, b, c, ab, bc, ac).unwrap().1,
{
    match ac {
        SegmentTranslatability::Translatable => Some([Some((a, b, c)), None]),
        SegmentTranslatability::SemiTranslatable(isect_ac) => {
            match bc {
                SegmentTranslatability::SemiTranslatable(isect_bc) => Some(
                    [Some((a, isect_ac, isect_bc)), Some((a, b, isect_bc))],
                ),
                SegmentTranslatability::NonTranslatable => {
                    match ab {
                        SegmentTranslatability::SemiTranslatable(isect_ab) => Some(
                            [Some((a, isect_ab, isect_ac)), None],
                        ),
                        _ => None,
                    }
                },
                SegmentTranslatability::Translatable => None,
            }
        },
        SegmentTranslatability::NonTranslatable => {
            match (bc, ab) {
                (
                    SegmentTranslatability::NonTranslatable,
                    SegmentTranslatability::NonTranslatable,
                ) => Some([None, None]),
                _ => None,
            }
        },
    }
}

/// The triangles that are left of a triangle, as `split` names them.
pub fn split_if_necessary<P: Copy>(
    a: P,
    b: P,
    c: P,
    ab: SegmentTranslatability<P>,
    bc: SegmentTranslatability<P>,
    ac: SegmentTranslatability<P>,
) -> (triangles: [Option<(P, P, P)>; 2])
    requires
        split(a, b, c, ab, bc, ac).is_some(),
    ensures
        triangles[0] == split(a, b, c, ab, bc, ac).unwrap().0,
        triangles[1] == split(a, b, c, ab, bc, ac).unwrap().1,
{
    try_split_if_necessary(a, b, c, ab, bc, ac).unwrap()
}

/// A triangle whose vertices are all translatable is left as it is, and of a
/// triangle without a translatable vertex nothing is left, wherever the lines
/// of the edges cross the boundary.
pub proof fn lemma_split_without_crossing<P>(a: P, b: P, c: P, on_ab: P, on_bc: P, on_ac: P)
    ensures
        split(
            a,
            b,
            c,
            classified(true, true, on_ab),
            classified(true, true, on_bc),
            classified(true, true, on_ac),
        ) == Some((Some((a, b, c)), None::<(P, P, P)>)),
        split(
            a,
            b,
            c,
            classified(false, false, on_ab),
            classified(false, false, on_bc),
            classified(false, false, on_ac),
        ) == Some((None::<(P, P, P)>, None::<(P, P, P)>)),
{
}

/// Where the translatable vertices of a triangle come first, the clipper is
/// defined: it leaves the triangle itself where all vertices are translatable,
/// the two triangles between `a`, `b` and the crossings where `c` is not, the
/// triangle between `a` and the crossings where only `a` is, and else nothing.
pub proof fn lemma_split_front_first<P>(
    a: P,
    b: P,
    c: P,
    can_a: bool,
    can_b: bool,
    can_c: bool,
    on_ab: P,
    on_bc: P,
    on_ac: P,
)
    requires
        can_c ==> can_b,
        can_b ==> can_a,
    ensures
        split(
            a,
            b,
            c,
            classified(can_a, can_b, on_ab),
            classified(can_b, can_c, on_bc),
            classified(can_a, can_c, on_ac),
        ) == Some(
            if can_c {
                (Some((a, b, c)), None::<(P, P, P)>)
            } else if can_b {
                (Some((a, on_ac, on_bc)), Some((a, b, on_bc)))
            } else if can_a {
                (Some((a, on_ab, on_ac)), None::<(P, P, P)>)
            } else {
                (None::<(P, P, P)>, None::<(P, P, P)>)
            },
        ),
{
}

} // verus!
