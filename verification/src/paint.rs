use vstd::prelude::*;

verus! {

/// Where a rectangle's fill comes from.
#[derive(Clone, Copy, Debug, PartialEq, Eq, Structural)]
pub enum RectFill {
    /// The fill colour the element gives.
    Given,
    /// Black, the default colour: the element gives neither fill nor stroke.
    DefaultBlack,
    /// No fill: the element gives a stroke only.
    Unfilled,
}

/// How a rectangle (or rounded rectangle) is painted.
#[derive(Clone, Copy, Debug, PartialEq, Eq, Structural)]
pub struct RectPaint {
    pub fill: RectFill,
    /// Whether the outline is stroked with the element's stroke colour and width.
    pub stroke: bool,
}

/// The paint of a rectangle with or without a fill colour and a stroke colour: each given
/// one is used; with neither, the rectangle is filled black.
pub open spec fn rect_paint_of(has_fill: bool, has_stroke: bool) -> RectPaint {
    RectPaint {
        fill: if has_fill {
            RectFill::Given
        } else if has_stroke {
            RectFill::Unfilled
        } else {
            RectFill::DefaultBlack
        },
        stroke: has_stroke,
    }
}

/// Decides how a rectangle element is painted.
pub fn rect_paint(has_fill: bool, has_stroke: bool) -> (paint: RectPaint)
    ensures
        paint == rect_paint_of(has_fill, has_stroke),
{
    let fill = if has_fill {
        RectFill::Given
    } else if has_stroke {
        RectFill::Unfilled
    } else {
        RectFill::DefaultBlack
    };
    RectPaint { fill, stroke: has_stroke }
}

/// A rectangle element is never invisible: it is filled, stroked, or both.
pub proof fn lemma_rect_always_painted(has_fill: bool, has_stroke: bool)
    ensures
        rect_paint_of(has_fill, has_stroke).fill != RectFill::Unfilled || rect_paint_of(
            has_fill,
            has_stroke,
        ).stroke,
{
}

/// How a line (or polyline) element is drawn.
#[derive(Clone, Copy, Debug, PartialEq, Eq, Structural)]
pub enum LineStyle {
    /// A filled outline of varying width (a brush stroke), not stroked.
    Brush,
    /// A stroked path with a sinusoidal wobble across its direction.
    Rippled,
    /// A plain stroked path.
    Straight,
}

/// A positive thickness ripple makes a brush stroke; otherwise a positive ripple makes a
/// rippled stroke; otherwise the line is straight. The ripple is ignored under a
/// thickness ripple.
pub open spec fn line_style_of(thickness_ripple: bool, ripple: bool) -> LineStyle {
    if thickness_ripple {
        LineStyle::Brush
    } else if ripple {
        LineStyle::Rippled
    } else {
        LineStyle::Straight
    }
}

/// Decides how a line element is drawn, from whether its thickness ripple and its ripple
/// are positive.
pub fn line_style(thickness_ripple: bool, ripple: bool) -> (style: LineStyle)
    ensures
        style == line_style_of(thickness_ripple, ripple),
{
    if thickness_ripple {
        LineStyle::Brush
    } else if ripple {
        LineStyle::Rippled
    } else {
        LineStyle::Straight
    }
}

/// A positive thickness ripple always makes a brush stroke, whatever the ripple; without
/// one, the ripple alone decides between a rippled and a straight stroke.
pub proof fn lemma_line_style_rules(thickness_ripple: bool, ripple: bool)
    ensures
        line_style_of(true, ripple) == LineStyle::Brush,
        (line_style_of(thickness_ripple, ripple) == LineStyle::Brush) <==> thickness_ripple,
        (line_style_of(thickness_ripple, ripple) == LineStyle::Rippled) <==> (!thickness_ripple
            && ripple),
        (line_style_of(thickness_ripple, ripple) == LineStyle::Straight) <==> (!thickness_ripple
            && !ripple),
{
}

/// A rectangle uses exactly the paints it is given: its fill colour when it has one, its
/// stroke when it has one, and black only when it has neither.
pub proof fn lemma_rect_paint_rules(has_fill: bool, has_stroke: bool)
    ensures
        (rect_paint_of(has_fill, has_stroke).fill == RectFill::Given) <==> has_fill,
        rect_paint_of(has_fill, has_stroke).stroke == has_stroke,
        (rect_paint_of(has_fill, has_stroke).fill == RectFill::DefaultBlack) <==> (!has_fill
            && !has_stroke),
{
}

} // verus!
