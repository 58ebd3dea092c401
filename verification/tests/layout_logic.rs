use pdf_render::glyphs::{batch_by_style, glyph_batches, place_glyphs, ClusterInfo, GlyphRef, PlacedGlyph};
use pdf_render::paginate::{child_split_strategy, distribute_step, splittable, NodeSplit, PageAction, SplitStrategy};
use pdf_render::paint::{line_style, rect_paint, LineStyle, RectFill, RectPaint};

fn cluster(lig: bool, start: usize, end: usize, glyphs: &[(u32, u16)]) -> ClusterInfo {
    ClusterInfo {
        ligature_continuation: lig,
        text_start: start,
        text_end: end,
        glyphs: glyphs.iter().map(|&(id, style)| GlyphRef { id, style }).collect(),
    }
}

#[test]
fn own_strategy_overrides_parent() {
    let node = NodeSplit::Column(SplitStrategy::SplitCenter);
    assert_eq!(child_split_strategy(&node, &SplitStrategy::SplitNearestView), SplitStrategy::SplitCenter);
    let node = NodeSplit::RichBulletList(SplitStrategy::SplitAnywhere);
    assert_eq!(child_split_strategy(&node, &SplitStrategy::NoSplit), SplitStrategy::SplitAnywhere);
}

#[test]
fn no_split_or_leaf_inherits_parent() {
    let node = NodeSplit::BulletList(SplitStrategy::NoSplit);
    assert_eq!(child_split_strategy(&node, &SplitStrategy::SplitNearestView), SplitStrategy::SplitNearestView);
    assert_eq!(child_split_strategy(&NodeSplit::Other, &SplitStrategy::SplitCenter), SplitStrategy::SplitCenter);
}

#[test]
fn only_columns_are_splittable() {
    assert!(splittable(&NodeSplit::Column(SplitStrategy::NoSplit)));
    assert!(!splittable(&NodeSplit::BulletList(SplitStrategy::SplitNearestView)));
    assert!(!splittable(&NodeSplit::Other));
}

#[test]
fn fitting_child_is_placed() {
    let parent = SplitStrategy::SplitNearestView;
    assert_eq!(distribute_step(true, false, &NodeSplit::Other, &parent, true), PageAction::Place);
}

#[test]
fn overflow_below_top_breaks_page() {
    let parent = SplitStrategy::SplitNearestView;
    assert_eq!(
        distribute_step(false, false, &NodeSplit::Other, &parent, true),
        PageAction::BreakPage { emit: true }
    );
    assert_eq!(
        distribute_step(false, false, &NodeSplit::Other, &SplitStrategy::SplitAnywhere, false),
        PageAction::BreakPage { emit: false }
    );
}

#[test]
fn overflowing_column_at_top_is_split() {
    let node = NodeSplit::Column(SplitStrategy::NoSplit);
    assert_eq!(
        distribute_step(false, true, &node, &SplitStrategy::SplitNearestView, false),
        PageAction::SplitChildren { strategy: SplitStrategy::SplitNearestView, emit: false }
    );
    assert_eq!(
        distribute_step(false, true, &node, &SplitStrategy::SplitNearestView, true),
        PageAction::SplitChildren { strategy: SplitStrategy::SplitNearestView, emit: true }
    );
}

#[test]
fn overflowing_leaf_at_top_is_forced() {
    assert_eq!(
        distribute_step(false, true, &NodeSplit::Other, &SplitStrategy::SplitNearestView, true),
        PageAction::Place
    );
    let node = NodeSplit::Column(SplitStrategy::SplitCenter);
    assert_eq!(distribute_step(false, true, &node, &SplitStrategy::NoSplit, true), PageAction::Place);
}

#[test]
fn no_split_strategy_forces_overflow() {
    let node = NodeSplit::Column(SplitStrategy::NoSplit);
    assert_eq!(distribute_step(false, false, &node, &SplitStrategy::NoSplit, true), PageAction::Place);
}

#[test]
fn rect_paint_defaults_to_black_fill() {
    assert_eq!(rect_paint(false, false), RectPaint { fill: RectFill::DefaultBlack, stroke: false });
    assert_eq!(rect_paint(false, true), RectPaint { fill: RectFill::Unfilled, stroke: true });
    assert_eq!(rect_paint(true, true), RectPaint { fill: RectFill::Given, stroke: true });
    assert_eq!(rect_paint(true, false), RectPaint { fill: RectFill::Given, stroke: false });
}

#[test]
fn line_style_priorities() {
    assert_eq!(line_style(true, true), LineStyle::Brush);
    assert_eq!(line_style(false, true), LineStyle::Rippled);
    assert_eq!(line_style(false, false), LineStyle::Straight);
}

#[test]
fn glyphs_listed_in_order() {
    let clusters = vec![cluster(false, 0, 1, &[(10, 0)]), cluster(false, 1, 3, &[(11, 0), (12, 1)])];
    let placed = place_glyphs(&clusters);
    assert_eq!(
        placed,
        vec![
            PlacedGlyph { cluster: 0, slot: 0, id: 10, style: 0, text_start: 0, text_end: 1 },
            PlacedGlyph { cluster: 1, slot: 0, id: 11, style: 0, text_start: 1, text_end: 3 },
            PlacedGlyph { cluster: 1, slot: 1, id: 12, style: 1, text_start: 1, text_end: 3 },
        ]
    );
}

#[test]
fn ligature_continuation_extends_previous_glyph() {
    let clusters = vec![
        cluster(false, 0, 1, &[(5, 2)]),
        cluster(true, 1, 2, &[(99, 2)]),
        cluster(true, 2, 3, &[]),
    ];
    let placed = place_glyphs(&clusters);
    assert_eq!(placed, vec![PlacedGlyph { cluster: 0, slot: 0, id: 5, style: 2, text_start: 0, text_end: 3 }]);
}

#[test]
fn leading_ligature_continuation_is_ignored() {
    let clusters = vec![cluster(true, 0, 4, &[(1, 0)]), cluster(false, 4, 5, &[(2, 0)])];
    let placed = place_glyphs(&clusters);
    assert_eq!(placed, vec![PlacedGlyph { cluster: 1, slot: 0, id: 2, style: 0, text_start: 4, text_end: 5 }]);
}

#[test]
fn batches_split_at_style_changes() {
    let clusters = vec![
        cluster(false, 0, 1, &[(1, 0)]),
        cluster(false, 1, 2, &[(2, 0)]),
        cluster(false, 2, 3, &[(3, 1)]),
        cluster(false, 3, 4, &[(4, 0)]),
    ];
    let batches = glyph_batches(&clusters);
    let shape: Vec<(u16, Vec<u32>)> =
        batches.iter().map(|b| (b.style, b.glyphs.iter().map(|g| g.id).collect())).collect();
    assert_eq!(shape, vec![(0, vec![1, 2]), (1, vec![3]), (0, vec![4])]);
}

#[test]
fn no_glyphs_no_batches() {
    assert!(batch_by_style(&Vec::new()).is_empty());
    assert!(glyph_batches(&vec![cluster(true, 0, 1, &[])]).is_empty());
}
