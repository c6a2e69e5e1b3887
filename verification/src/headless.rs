//! The renderer without a screen: it logs each scene as an indented tree.

use vstd::prelude::*;

use crate::events::NotificationEvent;
use crate::scene;
use crate::scene::{Primitive, PrimitiveView, Scene, SceneView};

verus! {

/// What one line of the tree shows.
#[derive(Debug, PartialEq, Eq)]
pub enum Line {
    Row,
    Column,
    Stack,
    Leaf(Primitive),
}

/// The view of a [`Line`].
pub enum LineView {
    Row,
    Column,
    Stack,
    Leaf(PrimitiveView),
}

impl View for Line {
    type V = LineView;

    open spec fn view(&self) -> LineView {
        match *self {
            Line::Row => LineView::Row,
            Line::Column => LineView::Column,
            Line::Stack => LineView::Stack,
            Line::Leaf(p) => LineView::Leaf(p@),
        }
    }
}

/// One line of the tree with its depth; the root has depth 1.
#[derive(Debug, PartialEq, Eq)]
pub struct OutlineRow {
    pub depth: usize,
    pub line: Line,
}

/// The view of an [`OutlineRow`].
pub struct OutlineRowView {
    pub depth: nat,
    pub line: LineView,
}

impl View for OutlineRow {
    type V = OutlineRowView;

    open spec fn view(&self) -> OutlineRowView {
        OutlineRowView { depth: self.depth as nat, line: self.line@ }
    }
}

/// The views of a list of rows.
pub open spec fn row_views(v: Seq<OutlineRow>) -> Seq<OutlineRowView> {
    v.map_values(|r: OutlineRow| r@)
}

/// The lines of a scene: each container above its children, each child one deeper.
pub open spec fn outline_spec(s: SceneView, depth: nat) -> Seq<OutlineRowView>
    decreases s,
{
    match s {
        SceneView::Row { children, .. } => seq![OutlineRowView { depth, line: LineView::Row }]
            + outlines_spec(children, depth + 1),
        SceneView::Column { children, .. } => seq![OutlineRowView { depth, line: LineView::Column }]
            + outlines_spec(children, depth + 1),
        SceneView::Stack { children, .. } => seq![OutlineRowView { depth, line: LineView::Stack }]
            + outlines_spec(children, depth + 1),
        SceneView::Leaf(p) => seq![OutlineRowView { depth, line: LineView::Leaf(p) }],
    }
}

/// The lines of some scenes, one after the other.
pub open spec fn outlines_spec(list: Seq<SceneView>, depth: nat) -> Seq<OutlineRowView>
    decreases list,
{
    if list.len() == 0 {
        Seq::empty()
    } else {
        outlines_spec(list.subrange(0, list.len() - 1), depth) + outline_spec(
            list[list.len() - 1],
            depth,
        )
    }
}

/// How deep a scene is nested.
pub open spec fn height(s: SceneView) -> nat
    decreases s,
{
    match s {
        SceneView::Row { children, .. } => 1 + heights(children),
        SceneView::Column { children, .. } => 1 + heights(children),
        SceneView::Stack { children, .. } => 1 + heights(children),
        SceneView::Leaf(_) => 1,
    }
}

/// How deep the deepest of some scenes is nested.
pub open spec fn heights(list: Seq<SceneView>) -> nat
    decreases list,
{
    if list.len() == 0 {
        0
    } else {
        let a = heights(list.subrange(0, list.len() - 1));
        let b = height(list[list.len() - 1]);
        if a < b {
            b
        } else {
            a
        }
    }
}

proof fn lemma_height_of_child(list: Seq<SceneView>, i: int)
    requires
        0 <= i < list.len(),
    ensures
        height(list[i]) <= heights(list),
    decreases list.len(),
{
    let front = list.subrange(0, list.len() - 1);
    if i < list.len() - 1 {
        lemma_height_of_child(front, i);
        assert(front[i] == list[i]);
    }
}

fn outline_into(s: &Scene, depth: usize, out: &mut Vec<OutlineRow>)
    requires
        depth + height(s@) <= usize::MAX,
    ensures
        row_views(final(out)@) == row_views(old(out)@) + outline_spec(s@, depth as nat),
    decreases s,
{
    proof {
        scene::lemma_model(*s);
    }
    match s {
        Scene::Row { children, .. } => {
            out.push(OutlineRow { depth, line: Line::Row });
            let ghost head = row_views(out@);
            assert(head =~= row_views(old(out)@) + seq![
                OutlineRowView { depth: depth as nat, line: LineView::Row },
            ]);
            outlines_into(children, depth + 1, out);
        },
        Scene::Column { children, .. } => {
            out.push(OutlineRow { depth, line: Line::Column });
            let ghost head = row_views(out@);
            assert(head =~= row_views(old(out)@) + seq![
                OutlineRowView { depth: depth as nat, line: LineView::Column },
            ]);
            outlines_into(children, depth + 1, out);
        },
        Scene::Stack { children, .. } => {
            out.push(OutlineRow { depth, line: Line::Stack });
            let ghost head = row_views(out@);
            assert(head =~= row_views(old(out)@) + seq![
                OutlineRowView { depth: depth as nat, line: LineView::Stack },
            ]);
            outlines_into(children, depth + 1, out);
        },
        Scene::Leaf(p) => {
            out.push(OutlineRow { depth, line: Line::Leaf(p.clone()) });
        },
    }
    assert(row_views(out@) =~= row_views(old(out)@) + outline_spec(s@, depth as nat));
}

fn outlines_into(list: &Vec<Scene>, depth: usize, out: &mut Vec<OutlineRow>)
    requires
        depth + heights(scene::scene_views(list@)) <= usize::MAX,
    ensures
        row_views(final(out)@) == row_views(old(out)@) + outlines_spec(
            scene::scene_views(list@),
            depth as nat,
        ),
    decreases list,
{
    let ghost views = scene::scene_views(list@);
    let ghost start = row_views(out@);
    let mut i: usize = 0;
    proof {
        assert(views.subrange(0, 0) =~= Seq::empty());
        assert(start + Seq::<OutlineRowView>::empty() =~= start);
    }
    while i < list.len()
        invariant
            i <= list@.len(),
            views == scene::scene_views(list@),
            depth + heights(views) <= usize::MAX,
            row_views(out@) == start + outlines_spec(views.subrange(0, i as int), depth as nat),
        decreases list@.len() - i,
    {
        let ghost before = outlines_spec(views.subrange(0, i as int), depth as nat);
        proof {
            assert(decreases_to!(list => list@[i as int]));
            assert(views[i as int] == list@[i as int]@);
            lemma_height_of_child(views, i as int);
        }
        outline_into(&list[i], depth, out);
        i = i + 1;
        proof {
            let now = views.subrange(0, i as int);
            assert(now.subrange(0, now.len() - 1) =~= views.subrange(0, i - 1));
            assert(now[now.len() - 1] == views[i - 1]);
            assert(row_views(out@) =~= start + outlines_spec(now, depth as nat));
        }
    }
    assert(views.subrange(0, i as int) =~= views);
}

/// The scene as lines, the root at depth 1.
pub fn outline(s: &Scene) -> (r: Vec<OutlineRow>)
    requires
        1 + height(s@) <= usize::MAX,
    ensures
        row_views(r@) == outline_spec(s@, 1),
{
    let mut out: Vec<OutlineRow> = Vec::new();
    outline_into(s, 1, &mut out);
    assert(row_views(out@) =~= outline_spec(s@, 1));
    out
}

/// Whether the loop goes on after an event: until a shutdown.
pub fn keeps_running(e: &NotificationEvent) -> (r: bool)
    ensures
        r == !(e is Shutdown),
{
    match e {
        NotificationEvent::Shutdown => false,
        _ => true,
    }
}

/// A container is one line above the lines of its children, which are one deeper; a leaf is one
/// line.
pub proof fn containers_stand_above_their_children(s: SceneView, depth: nat)
    ensures
        outline_spec(s, depth).len() > 0,
        outline_spec(s, depth)[0].depth == depth,
        match s {
            SceneView::Row { children, .. } => outline_spec(s, depth)[0].line is Row
                && outline_spec(s, depth).skip(1) == outlines_spec(children, depth + 1),
            SceneView::Column { children, .. } => outline_spec(s, depth)[0].line is Column
                && outline_spec(s, depth).skip(1) == outlines_spec(children, depth + 1),
            SceneView::Stack { children, .. } => outline_spec(s, depth)[0].line is Stack
                && outline_spec(s, depth).skip(1) == outlines_spec(children, depth + 1),
            SceneView::Leaf(p) => outline_spec(s, depth)[0].line == LineView::Leaf(p)
                && outline_spec(s, depth).len() == 1,
        },
{
    match s {
        SceneView::Row { children, .. } => {
            assert(outline_spec(s, depth).skip(1) =~= outlines_spec(children, depth + 1));
        },
        SceneView::Column { children, .. } => {
            assert(outline_spec(s, depth).skip(1) =~= outlines_spec(children, depth + 1));
        },
        SceneView::Stack { children, .. } => {
            assert(outline_spec(s, depth).skip(1) =~= outlines_spec(children, depth + 1));
        },
        SceneView::Leaf(_) => {},
    }
}

/// Children are told in their order, each with all of its own lines before the next.
pub proof fn children_are_told_in_order(list: Seq<SceneView>, next: SceneView, depth: nat)
    ensures
        outlines_spec(Seq::empty(), depth).len() == 0,
        outlines_spec(list.push(next), depth) == outlines_spec(list, depth) + outline_spec(
            next,
            depth,
        ),
{
    let all = list.push(next);
    assert(all.subrange(0, all.len() - 1) =~= list);
    assert(all[all.len() - 1] == next);
}

/// The loop goes on until a shutdown and ends with it.
pub proof fn loops_end_with_a_shutdown(e: NotificationEvent, r: bool)
    requires
        call_ensures(keeps_running, (&e,), r),
    ensures
        e is Shutdown ==> !r,
        !(e is Shutdown) ==> r,
{
}

} // verus!
