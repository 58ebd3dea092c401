use vstd::prelude::*;

verus! {

/// How content that does not fit on the rest of a page is split across pages.
#[derive(Clone, Copy, Debug, PartialEq, Eq, Structural)]
pub enum SplitStrategy {
    /// Never split: an overflowing child stays on the current page.
    NoSplit,
    /// Move an overflowing child to the next page; split it into its own children
    /// only when it does not fit even at the top of a page.
    SplitNearestView,
    /// Split at child boundaries (treated like `SplitNearestView`, without recursion).
    SplitCenter,
    /// Split at child boundaries (treated like `SplitNearestView`, without recursion).
    SplitAnywhere,
}

/// What pagination reads of a document node: whether it is a column, a bullet list or a
/// rich bullet list, with the split strategy such a container declares, or another node.
#[derive(Clone, Copy, Debug, PartialEq, Eq, Structural)]
pub enum NodeSplit {
    Column(SplitStrategy),
    BulletList(SplitStrategy),
    RichBulletList(SplitStrategy),
    Other,
}

/// The strategy a child is paginated with: the one it declares itself, unless that is
/// `NoSplit` or it declares none, in which case its parent's.
pub open spec fn effective_strategy(node: NodeSplit, parent: SplitStrategy) -> SplitStrategy {
    match node {
        NodeSplit::Column(s) => if s != SplitStrategy::NoSplit { s } else { parent },
        NodeSplit::BulletList(s) => if s != SplitStrategy::NoSplit { s } else { parent },
        NodeSplit::RichBulletList(s) => if s != SplitStrategy::NoSplit { s } else { parent },
        NodeSplit::Other => parent,
    }
}

/// The strategy `node` is paginated with when its parent paginates with `parent`.
pub fn child_split_strategy(node: &NodeSplit, parent: &SplitStrategy) -> (strategy: SplitStrategy)
    ensures
        strategy == effective_strategy(*node, *parent),
{
    match node {
        NodeSplit::Column(s) if *s != SplitStrategy::NoSplit => *s,
        NodeSplit::BulletList(s) if *s != SplitStrategy::NoSplit => *s,
        NodeSplit::RichBulletList(s) if *s != SplitStrategy::NoSplit => *s,
        _ => *parent,
    }
}

/// Only columns can be broken up into their children across pages; a bullet list is
/// laid out as one unit.
pub fn splittable(node: &NodeSplit) -> (can_split: bool)
    ensures
        can_split <==> node is Column,
{
    match node {
        NodeSplit::Column(_) => true,
        _ => false,
    }
}

/// What pagination does with the next child.
#[derive(Clone, Copy, Debug, PartialEq, Eq, Structural)]
pub enum PageAction {
    /// Lay the child out on the current page (it fits, or it is forced there), then go on
    /// with the next child.
    Place,
    /// Close the current page, emitting it when it holds items, and evaluate the same child
    /// again at the top of a fresh page.
    BreakPage { emit: bool },
    /// Close the current page, emitting it when it holds items, paginate the child's own
    /// children with `strategy` onto pages of their own, and go on with the next child on
    /// a fresh page.
    SplitChildren { strategy: SplitStrategy, emit: bool },
}

/// The decision for one child. `fits`: the child ends within the page's content height
/// (with a tolerance of 0.1); `near_top`: it starts within 0.1 of the page's top;
/// `page_has_items`: the current page already holds laid-out items.
pub open spec fn next_action(
    fits: bool,
    near_top: bool,
    node: NodeSplit,
    parent: SplitStrategy,
    page_has_items: bool,
) -> PageAction {
    let strategy = effective_strategy(node, parent);
    if fits {
        PageAction::Place
    } else {
        match strategy {
            SplitStrategy::NoSplit => PageAction::Place,
            SplitStrategy::SplitNearestView => if !near_top {
                PageAction::BreakPage { emit: page_has_items }
            } else if node is Column {
                PageAction::SplitChildren { strategy, emit: page_has_items }
            } else {
                PageAction::Place
            },
            _ => if !near_top {
                PageAction::BreakPage { emit: page_has_items }
            } else {
                PageAction::Place
            },
        }
    }
}

/// Whether pagination moves on to the next child after `action`.
pub open spec fn advances(action: PageAction) -> bool {
    !(action is BreakPage)
}

/// Decides what pagination does with the next child of a page's content.
pub fn distribute_step(
    fits: bool,
    near_top: bool,
    node: &NodeSplit,
    parent: &SplitStrategy,
    page_has_items: bool,
) -> (action: PageAction)
    ensures
        action == next_action(fits, near_top, *node, *parent, page_has_items),
{
    if fits {
        return PageAction::Place;
    }
    let strategy = child_split_strategy(node, parent);
    match strategy {
        SplitStrategy::NoSplit => PageAction::Place,
        SplitStrategy::SplitNearestView => {
            if !near_top {
                PageAction::BreakPage { emit: page_has_items }
            } else if splittable(node) {
                PageAction::SplitChildren { strategy, emit: page_has_items }
            } else {
                PageAction::Place
            }
        },
        SplitStrategy::SplitCenter | SplitStrategy::SplitAnywhere => {
            if !near_top {
                PageAction::BreakPage { emit: page_has_items }
            } else {
                PageAction::Place
            }
        },
    }
}

/// A child that fits on the current page is always laid out there.
pub proof fn lemma_fitting_child_is_placed(
    near_top: bool,
    node: NodeSplit,
    parent: SplitStrategy,
    page_has_items: bool,
)
    ensures
        next_action(true, near_top, node, parent, page_has_items) == PageAction::Place,
{
}

/// A child at the top of a page is never deferred to another page, so pagination always
/// moves on: after a page break the same child, now at the top, is placed or split.
/// Each child is thus evaluated at most twice.
pub proof fn lemma_progress_at_top(
    fits: bool,
    node: NodeSplit,
    parent: SplitStrategy,
    page_has_items: bool,
)
    ensures
        advances(next_action(fits, true, node, parent, page_has_items)),
{
}

/// Under the `NoSplit` strategy nothing is moved or split: every child stays on the page.
pub proof fn lemma_no_split_keeps_everything(
    fits: bool,
    near_top: bool,
    node: NodeSplit,
    parent: SplitStrategy,
    page_has_items: bool,
)
    requires
        effective_strategy(node, parent) == SplitStrategy::NoSplit,
    ensures
        next_action(fits, near_top, node, parent, page_has_items) == PageAction::Place,
{
}

/// Only a column that overflows at the top of a page, under `SplitNearestView`, is split,
/// and its children are paginated with that same strategy.
pub proof fn lemma_only_columns_split(
    fits: bool,
    near_top: bool,
    node: NodeSplit,
    parent: SplitStrategy,
    page_has_items: bool,
)
    ensures
        next_action(fits, near_top, node, parent, page_has_items) is SplitChildren ==> {
            &&& node is Column
            &&& !fits
            &&& near_top
            &&& effective_strategy(node, parent) == SplitStrategy::SplitNearestView
            &&& next_action(fits, near_top, node, parent, page_has_items) matches PageAction::SplitChildren {
                strategy,
                ..
            } && strategy == SplitStrategy::SplitNearestView
        },
{
}

/// Closing a page never loses what it holds: on a break or a split the current page is
/// emitted exactly when it holds items, so no laid-out item is dropped and no empty page
/// is emitted.
pub proof fn lemma_closed_pages_keep_their_items(
    fits: bool,
    near_top: bool,
    node: NodeSplit,
    parent: SplitStrategy,
    page_has_items: bool,
)
    ensures
        next_action(fits, near_top, node, parent, page_has_items) matches PageAction::BreakPage {
            emit,
        } ==> emit == page_has_items,
        next_action(fits, near_top, node, parent, page_has_items) matches PageAction::SplitChildren {
            emit,
            ..
        } ==> emit == page_has_items,
{
}

/// A node's own strategy overrides its parent's unless it is `NoSplit`; nodes that declare
/// none inherit their parent's.
pub proof fn lemma_own_strategy_wins(node: NodeSplit, parent: SplitStrategy)
    ensures
        match node {
            NodeSplit::Column(s) => s != SplitStrategy::NoSplit ==> effective_strategy(node, parent)
                == s,
            NodeSplit::BulletList(s) => s != SplitStrategy::NoSplit ==> effective_strategy(
                node,
                parent,
            ) == s,
            NodeSplit::RichBulletList(s) => s != SplitStrategy::NoSplit ==> effective_strategy(
                node,
                parent,
            ) == s,
            NodeSplit::Other => effective_strategy(node, parent) == parent,
        },
{
}

/// A container that declares `NoSplit` declares nothing: it paginates with its parent's
/// strategy, whichever kind of container it is.
pub proof fn lemma_declared_no_split_inherits(parent: SplitStrategy)
    ensures
        effective_strategy(NodeSplit::Column(SplitStrategy::NoSplit), parent) == parent,
        effective_strategy(NodeSplit::BulletList(SplitStrategy::NoSplit), parent) == parent,
        effective_strategy(NodeSplit::RichBulletList(SplitStrategy::NoSplit), parent) == parent,
{
}

/// The three container kinds follow one rule: a column, a bullet list and a rich bullet
/// list declaring the same strategy paginate alike under any parent.
pub proof fn lemma_containers_alike(declared: SplitStrategy, parent: SplitStrategy)
    ensures
        effective_strategy(NodeSplit::Column(declared), parent) == effective_strategy(
            NodeSplit::BulletList(declared),
            parent,
        ),
        effective_strategy(NodeSplit::Column(declared), parent) == effective_strategy(
            NodeSplit::RichBulletList(declared),
            parent,
        ),
        effective_strategy(NodeSplit::Column(declared), parent) == (if declared
            == SplitStrategy::NoSplit {
            parent
        } else {
            declared
        }),
{
}

/// Under every strategy that splits (`SplitNearestView`, `SplitCenter`, `SplitAnywhere`),
/// a child that overflows and does not start at the page's top moves to the next page: the
/// current page is closed, emitted when it holds items.
pub proof fn lemma_overflow_below_top_breaks(
    node: NodeSplit,
    parent: SplitStrategy,
    page_has_items: bool,
)
    requires
        effective_strategy(node, parent) != SplitStrategy::NoSplit,
    ensures
        next_action(false, false, node, parent, page_has_items) == (PageAction::BreakPage {
            emit: page_has_items,
        }),
{
}

/// A child that overflows at the top of a page is split into its children exactly when it
/// is a column paginated with `SplitNearestView`; otherwise it is forced onto the page.
pub proof fn lemma_overflow_at_top(node: NodeSplit, parent: SplitStrategy, page_has_items: bool)
    ensures
        (node is Column && effective_strategy(node, parent) == SplitStrategy::SplitNearestView)
            ==> next_action(false, true, node, parent, page_has_items) == (
        PageAction::SplitChildren {
            strategy: SplitStrategy::SplitNearestView,
            emit: page_has_items,
        }),
        !(node is Column && effective_strategy(node, parent) == SplitStrategy::SplitNearestView)
            ==> next_action(false, true, node, parent, page_has_items) == PageAction::Place,
{
}

/// A child moves to the next page only when it overflows, is not at the page's top, and
/// its strategy splits.
pub proof fn lemma_breaks_only_when_needed(
    fits: bool,
    near_top: bool,
    node: NodeSplit,
    parent: SplitStrategy,
    page_has_items: bool,
)
    ensures
        next_action(fits, near_top, node, parent, page_has_items) is BreakPage <==> (!fits
            && !near_top && effective_strategy(node, parent) != SplitStrategy::NoSplit),
{
}

} // verus!
