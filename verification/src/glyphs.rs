use vstd::prelude::*;

verus! {

/// A glyph that text shaping produced: its glyph id and the index of the text style it
/// was shaped with.
#[derive(Clone, Copy, Debug, PartialEq, Eq, Structural)]
pub struct GlyphRef {
    pub id: u32,
    pub style: u16,
}

/// A shaped cluster of a glyph run, in visual order: the byte range of the text it covers,
/// its glyphs, and whether it continues a ligature begun by an earlier cluster.
pub struct ClusterInfo {
    pub ligature_continuation: bool,
    pub text_start: usize,
    pub text_end: usize,
    pub glyphs: Vec<GlyphRef>,
}

/// A glyph as it is handed to the PDF writer: which cluster (`cluster`) and which glyph of
/// that cluster (`slot`) it comes from, its id and style, and the byte range of the text it
/// stands for.
#[derive(Clone, Copy, Debug, PartialEq, Eq, Structural)]
pub struct PlacedGlyph {
    pub cluster: usize,
    pub slot: usize,
    pub id: u32,
    pub style: u16,
    pub text_start: usize,
    pub text_end: usize,
}

/// Consecutive glyphs of one style, drawn with one fill and one text-drawing call.
pub struct GlyphBatch {
    pub style: u16,
    pub glyphs: Vec<PlacedGlyph>,
}

/// The glyphs of cluster number `k`, each standing for the cluster's whole text range.
pub open spec fn glyphs_of_cluster(c: ClusterInfo, k: int) -> Seq<PlacedGlyph> {
    Seq::new(
        c.glyphs@.len(),
        |j: int|
            PlacedGlyph {
                cluster: k as usize,
                slot: j as usize,
                id: c.glyphs@[j].id,
                style: c.glyphs@[j].style,
                text_start: c.text_start,
                text_end: c.text_end,
            },
    )
}

/// `glyphs` with the text range of its last glyph made to end at `end` (unchanged when
/// there is no glyph).
pub open spec fn extend_last(glyphs: Seq<PlacedGlyph>, end: usize) -> Seq<PlacedGlyph> {
    if glyphs.len() == 0 {
        glyphs
    } else {
        let g = glyphs.last();
        glyphs.update(
            glyphs.len() - 1,
            PlacedGlyph {
                cluster: g.cluster,
                slot: g.slot,
                id: g.id,
                style: g.style,
                text_start: g.text_start,
                text_end: end,
            },
        )
    }
}

/// The glyphs drawn for a run: the glyphs of each cluster in turn, except that a cluster
/// continuing a ligature adds none and instead stretches the text range of the glyph drawn
/// last to the end of its own range.
pub open spec fn placed_glyphs(clusters: Seq<ClusterInfo>) -> Seq<PlacedGlyph>
    decreases clusters.len(),
{
    if clusters.len() == 0 {
        Seq::empty()
    } else {
        let before = placed_glyphs(clusters.drop_last());
        let c = clusters.last();
        if c.ligature_continuation {
            extend_last(before, c.text_end)
        } else {
            before + glyphs_of_cluster(c, clusters.len() - 1)
        }
    }
}

/// The glyphs cut into maximal stretches of one style, each given with its style, in order.
pub open spec fn style_batches(glyphs: Seq<PlacedGlyph>) -> Seq<(u16, Seq<PlacedGlyph>)>
    decreases glyphs.len(),
{
    if glyphs.len() == 0 {
        Seq::empty()
    } else {
        let before = style_batches(glyphs.drop_last());
        let g = glyphs.last();
        if before.len() > 0 && before.last().0 == g.style {
            before.update(before.len() - 1, (g.style, before.last().1.push(g)))
        } else {
            before.push((g.style, seq![g]))
        }
    }
}

/// The glyphs of all batches, one batch after another.
pub open spec fn batch_glyphs(batches: Seq<(u16, Seq<PlacedGlyph>)>) -> Seq<PlacedGlyph>
    decreases batches.len(),
{
    if batches.len() == 0 {
        Seq::empty()
    } else {
        batch_glyphs(batches.drop_last()) + batches.last().1
    }
}

/// The batches as styles and glyph sequences.
pub open spec fn batches_view(batches: Seq<GlyphBatch>) -> Seq<(u16, Seq<PlacedGlyph>)> {
    batches.map_values(|b: GlyphBatch| (b.style, b.glyphs@))
}

/// The number of glyphs the clusters that do not continue a ligature hold.
pub open spec fn shaped_glyph_count(clusters: Seq<ClusterInfo>) -> nat
    decreases clusters.len(),
{
    if clusters.len() == 0 {
        0
    } else if clusters.last().ligature_continuation {
        shaped_glyph_count(clusters.drop_last())
    } else {
        shaped_glyph_count(clusters.drop_last()) + clusters.last().glyphs@.len()
    }
}

/// Every glyph of every cluster that does not continue a ligature is drawn, and no other:
/// the count of drawn glyphs is the count of those clusters' glyphs.
pub proof fn lemma_placed_count(clusters: Seq<ClusterInfo>)
    ensures
        placed_glyphs(clusters).len() == shaped_glyph_count(clusters),
    decreases clusters.len(),
{
    if clusters.len() > 0 {
        lemma_placed_count(clusters.drop_last());
    }
}

/// Each drawn glyph is the glyph it names: it comes from a cluster that does not continue a
/// ligature, carries that glyph's id and style, and its text range starts where its
/// cluster's does.
pub proof fn lemma_placed_sources(clusters: Seq<ClusterInfo>)
    requires
        clusters.len() <= usize::MAX,
        forall|k: int| 0 <= k < clusters.len() ==> (#[trigger] clusters[k]).glyphs@.len() <= usize::MAX,
    ensures
        forall|m: int|
            0 <= m < placed_glyphs(clusters).len() ==> {
                let p = #[trigger] placed_glyphs(clusters)[m];
                let c = clusters[p.cluster as int];
                &&& p.cluster < clusters.len()
                &&& !c.ligature_continuation
                &&& p.slot < c.glyphs@.len()
                &&& p.id == c.glyphs@[p.slot as int].id
                &&& p.style == c.glyphs@[p.slot as int].style
                &&& p.text_start == c.text_start
            },
    decreases clusters.len(),
{
    if clusters.len() > 0 {
        let n = clusters.len() - 1;
        let init = clusters.drop_last();
        assert forall|k: int| 0 <= k < init.len() implies (#[trigger] init[k]).glyphs@.len() <= usize::MAX by {
            assert(init[k] == clusters[k]);
        }
        lemma_placed_sources(init);
        let before = placed_glyphs(init);
        let last = clusters.last();
        assert forall|m: int| 0 <= m < placed_glyphs(clusters).len() implies {
            let p = #[trigger] placed_glyphs(clusters)[m];
            let c = clusters[p.cluster as int];
            &&& p.cluster < clusters.len()
            &&& !c.ligature_continuation
            &&& p.slot < c.glyphs@.len()
            &&& p.id == c.glyphs@[p.slot as int].id
            &&& p.style == c.glyphs@[p.slot as int].style
            &&& p.text_start == c.text_start
        } by {
            let p = placed_glyphs(clusters)[m];
            if m < before.len() {
                let q = before[m];
                assert(clusters[q.cluster as int] == init[q.cluster as int]);
                assert(p.cluster == q.cluster && p.slot == q.slot && p.id == q.id && p.style == q.style
                    && p.text_start == q.text_start);
            } else {
                assert(!last.ligature_continuation);
                let j = m - before.len();
                assert(p == glyphs_of_cluster(last, n)[j]);
                assert(p.cluster as int == n);
                assert(p.slot as int == j);
            }
        }
    }
}

/// A cluster that continues a ligature draws nothing of its own: after it, the same glyphs
/// are drawn, except that the glyph drawn last now stands for the text up to the end of
/// this cluster (an "fi" ligature glyph covers both letters). Before any glyph is drawn,
/// such a cluster changes nothing.
pub proof fn lemma_ligature_continuation_extends(clusters: Seq<ClusterInfo>, k: int)
    requires
        0 <= k < clusters.len(),
        clusters[k].ligature_continuation,
    ensures
        ({
            let before = placed_glyphs(clusters.take(k));
            let after = placed_glyphs(clusters.take(k + 1));
            &&& after.len() == before.len()
            &&& forall|m: int| 0 <= m < before.len() - 1 ==> #[trigger] after[m] == before[m]
            &&& before.len() > 0 ==> {
                let (g, h) = (before.last(), after.last());
                &&& h.text_end == clusters[k].text_end
                &&& h.cluster == g.cluster
                &&& h.slot == g.slot
                &&& h.id == g.id
                &&& h.style == g.style
                &&& h.text_start == g.text_start
            }
            &&& before.len() == 0 ==> after.len() == 0
        }),
{
    assert(clusters.take(k + 1).drop_last() == clusters.take(k));
    assert(clusters.take(k + 1).last() == clusters[k]);
}

/// A cluster that does not continue a ligature adds its glyphs, in order, after those drawn
/// so far, each standing for exactly the cluster's text range until a later continuation
/// stretches the last of them; nothing drawn before changes.
pub proof fn lemma_cluster_adds_its_glyphs(clusters: Seq<ClusterInfo>, k: int)
    requires
        0 <= k < clusters.len(),
        k <= usize::MAX,
        clusters[k].glyphs@.len() <= usize::MAX + 1,
        !clusters[k].ligature_continuation,
    ensures
        ({
            let before = placed_glyphs(clusters.take(k));
            let after = placed_glyphs(clusters.take(k + 1));
            let c = clusters[k];
            &&& after.len() == before.len() + c.glyphs@.len()
            &&& forall|m: int| 0 <= m < before.len() ==> #[trigger] after[m] == before[m]
            &&& forall|j: int|
                0 <= j < c.glyphs@.len() ==> {
                    let h = #[trigger] after[before.len() + j];
                    &&& h.cluster == k
                    &&& h.slot == j
                    &&& h.id == c.glyphs@[j].id
                    &&& h.style == c.glyphs@[j].style
                    &&& h.text_start == c.text_start
                    &&& h.text_end == c.text_end
                }
        }),
{
    assert(clusters.take(k + 1).drop_last() == clusters.take(k));
    assert(clusters.take(k + 1).last() == clusters[k]);
    let before = placed_glyphs(clusters.take(k));
    let after = placed_glyphs(clusters.take(k + 1));
    let c = clusters[k];
    assert forall|j: int| 0 <= j < c.glyphs@.len() implies {
        let h = #[trigger] after[before.len() + j];
        &&& h.cluster == k
        &&& h.slot == j
        &&& h.id == c.glyphs@[j].id
        &&& h.style == c.glyphs@[j].style
        &&& h.text_start == c.text_start
        &&& h.text_end == c.text_end
    } by {
        assert(after[before.len() + j] == glyphs_of_cluster(c, k)[j]);
    }
}

/// Cutting into batches loses, adds and reorders no glyph: the batches, one after another,
/// are exactly the glyphs.
pub proof fn lemma_batches_cover(glyphs: Seq<PlacedGlyph>)
    ensures
        batch_glyphs(style_batches(glyphs)) == glyphs,
    decreases glyphs.len(),
{
    if glyphs.len() > 0 {
        let init = glyphs.drop_last();
        lemma_batches_cover(init);
        let before = style_batches(init);
        let g = glyphs.last();
        if before.len() > 0 && before.last().0 == g.style {
            let after = before.update(before.len() - 1, (g.style, before.last().1.push(g)));
            assert(after.drop_last() =~= before.drop_last());
            assert(batch_glyphs(before) == batch_glyphs(before.drop_last()) + before.last().1);
            assert(batch_glyphs(after) =~= batch_glyphs(before).push(g));
        } else {
            let after = before.push((g.style, seq![g]));
            assert(after.drop_last() =~= before);
            assert(batch_glyphs(after) =~= batch_glyphs(before).push(g));
        }
        assert(init.push(g) =~= glyphs);
    }
}

/// Every batch holds at least one glyph, and all its glyphs have the batch's style.
pub proof fn lemma_batches_uniform(glyphs: Seq<PlacedGlyph>)
    ensures
        forall|k: int|
            0 <= k < style_batches(glyphs).len() ==> {
                let b = #[trigger] style_batches(glyphs)[k];
                &&& b.1.len() > 0
                &&& forall|m: int| 0 <= m < b.1.len() ==> (#[trigger] b.1[m]).style == b.0
            },
    decreases glyphs.len(),
{
    if glyphs.len() > 0 {
        let init = glyphs.drop_last();
        lemma_batches_uniform(init);
        let before = style_batches(init);
        let g = glyphs.last();
        let after = style_batches(glyphs);
        assert forall|k: int| 0 <= k < after.len() implies {
            let b = #[trigger] after[k];
            &&& b.1.len() > 0
            &&& forall|m: int| 0 <= m < b.1.len() ==> (#[trigger] b.1[m]).style == b.0
        } by {
            if k < before.len() && !(k == before.len() - 1 && before.last().0 == g.style) {
                assert(after[k] == before[k]);
            } else if k == before.len() - 1 {
                let old = before[k];
                assert(after[k] == (g.style, old.1.push(g)));
                assert forall|m: int| 0 <= m < after[k].1.len() implies (#[trigger] after[k].1[m]).style
                    == after[k].0 by {
                    if m < old.1.len() {
                        assert(after[k].1[m] == old.1[m]);
                    }
                }
            } else {
                assert(after[k] == (g.style, seq![g]));
            }
        }
    }
}

/// Batches are maximal: two neighbouring batches never have the same style, so a style
/// change is the only place where one drawing call ends and the next begins.
pub proof fn lemma_batches_maximal(glyphs: Seq<PlacedGlyph>)
    ensures
        forall|k: int|
            0 < k < style_batches(glyphs).len() ==> (#[trigger] style_batches(glyphs)[k]).0
                != style_batches(glyphs)[k - 1].0,
    decreases glyphs.len(),
{
    if glyphs.len() > 0 {
        let init = glyphs.drop_last();
        lemma_batches_maximal(init);
        let before = style_batches(init);
        let g = glyphs.last();
        let after = style_batches(glyphs);
        assert forall|k: int| 0 < k < after.len() implies (#[trigger] after[k]).0 != after[k - 1].0 by {
            assert(forall|i: int| 0 <= i < before.len() ==> #[trigger] after[i].0 == before[i].0);
            if k < before.len() {
                assert(before[k].0 != before[k - 1].0);
            }
        }
    }
}

/// Lists the glyphs drawn for a run of clusters, in visual order.
pub fn place_glyphs(clusters: &Vec<ClusterInfo>) -> (placed: Vec<PlacedGlyph>)
    ensures
        placed@ == placed_glyphs(clusters@),
{
    let mut placed: Vec<PlacedGlyph> = Vec::new();
    let mut i: usize = 0;
    while i < clusters.len()
        invariant
            i <= clusters.len(),
            placed@ == placed_glyphs(clusters@.take(i as int)),
        decreases clusters.len() - i,
    {
        assert(clusters@.take(i + 1).drop_last() == clusters@.take(i as int));
        let c = &clusters[i];
        if c.ligature_continuation {
            let n = placed.len();
            if n > 0 {
                let g = placed[n - 1];
                placed.set(
                    n - 1,
                    PlacedGlyph {
                        cluster: g.cluster,
                        slot: g.slot,
                        id: g.id,
                        style: g.style,
                        text_start: g.text_start,
                        text_end: c.text_end,
                    },
                );
            }
        } else {
            let ghost before = placed@;
            let mut j: usize = 0;
            while j < c.glyphs.len()
                invariant
                    i < clusters.len(),
                    c == clusters@[i as int],
                    j <= c.glyphs.len(),
                    placed@ == before + glyphs_of_cluster(*c, i as int).take(j as int),
                decreases c.glyphs.len() - j,
            {
                let r = c.glyphs[j];
                placed.push(
                    PlacedGlyph {
                        cluster: i,
                        slot: j,
                        id: r.id,
                        style: r.style,
                        text_start: c.text_start,
                        text_end: c.text_end,
                    },
                );
                assert(glyphs_of_cluster(*c, i as int).take(j + 1) == glyphs_of_cluster(
                    *c,
                    i as int,
                ).take(j as int).push(placed@.last()));
                j = j + 1;
            }
            assert(glyphs_of_cluster(*c, i as int).take(j as int) == glyphs_of_cluster(
                *c,
                i as int,
            ));
        }
        i = i + 1;
    }
    assert(clusters@.take(clusters.len() as int) == clusters@);
    placed
}

/// Cuts glyphs into maximal stretches of one style, in order.
pub fn batch_by_style(glyphs: &Vec<PlacedGlyph>) -> (batches: Vec<GlyphBatch>)
    ensures
        batches_view(batches@) == style_batches(glyphs@),
{
    let mut batches: Vec<GlyphBatch> = Vec::new();
    let mut current: Vec<PlacedGlyph> = Vec::new();
    let mut current_style: Option<u16> = None;
    let mut i: usize = 0;
    while i < glyphs.len()
        invariant
            i <= glyphs.len(),
            i == 0 ==> current_style is None,
            current_style is None ==> i == 0 && batches@.len() == 0 && current@.len() == 0,
            i > 0 ==> current_style is Some && current@.len() > 0,
            current_style matches Some(s) ==> batches_view(batches@).push(
                (s, current@),
            ) == style_batches(glyphs@.take(i as int)),
        decreases glyphs.len() - i,
    {
        assert(glyphs@.take(i + 1).drop_last() == glyphs@.take(i as int));
        let g = glyphs[i];
        let ghost view0 = batches_view(batches@);
        let ghost current0 = current@;
        let ghost prefix = glyphs@.take(i + 1);
        proof {
            assert(prefix.last() == g);
            if i == 0 {
                assert(glyphs@.take(0) =~= Seq::<PlacedGlyph>::empty());
            }
        }
        match current_style {
            Some(s) => {
                assert(style_batches(glyphs@.take(i as int)) == view0.push((s, current0)));
                assert(style_batches(prefix) == (if s == g.style {
                    view0.push((s, current0)).update(view0.len() as int, (g.style, current0.push(g)))
                } else {
                    view0.push((s, current0)).push((g.style, seq![g]))
                }));
                if s != g.style {
                    let done = GlyphBatch { style: s, glyphs: current };
                    batches.push(done);
                    assert(batches_view(batches@) =~= view0.push((s, current0)));
                    current = Vec::new();
                    current_style = Some(g.style);
                    current.push(g);
                    assert(current@ =~= seq![g]);
                } else {
                    current.push(g);
                    assert(view0.push((s, current0)).update(view0.len() as int, (g.style, current0.push(g)))
                        =~= view0.push((g.style, current@)));
                }
            },
            None => {
                assert(style_batches(glyphs@.take(i as int)) =~= Seq::<(u16, Seq<PlacedGlyph>)>::empty());
                assert(style_batches(prefix) =~= seq![(g.style, seq![g])]);
                current_style = Some(g.style);
                current.push(g);
                assert(current@ =~= seq![g]);
                assert(batches_view(batches@) =~= Seq::<(u16, Seq<PlacedGlyph>)>::empty());
            },
        }
        assert(batches_view(batches@).push((g.style, current@)) == style_batches(prefix));
        i = i + 1;
    }
    assert(glyphs@.take(glyphs.len() as int) == glyphs@);
    match current_style {
        Some(s) => {
            batches.push(GlyphBatch { style: s, glyphs: current });
            assert(batches_view(batches@) == style_batches(glyphs@));
        },
        None => {},
    }
    batches
}

/// The style batches a run of clusters is drawn in: its glyphs (see `placed_glyphs`) cut
/// into maximal stretches of one style.
pub fn glyph_batches(clusters: &Vec<ClusterInfo>) -> (batches: Vec<GlyphBatch>)
    ensures
        batches_view(batches@) == style_batches(placed_glyphs(clusters@)),
{
    let placed = place_glyphs(clusters);
    batch_by_style(&placed)
}

} // verus!
