use crate::bigrect::{FloatRect, RectModel};
use crate::rational::{rat_add, rat_div, rat_from_int, rat_gt, rat_is_valid, rat_mul, rat_ok, rat_reduced, rat_sub, rat_value};
use num::BigRational;
use vstd::prelude::*;

verus! {

/// The view after a click at pixel `(cx, cy)` of a `sw` by `sh` surface that
/// shows `old`, scaled by `zf` and centred on the clicked point. The vertical
/// recentring term uses the old height, the axis's own extent.
pub open spec fn zoomed(old: RectModel, cx: real, cy: real, sw: real, sh: real, zf: real) -> RectModel {
    RectModel {
        left: (cx / sw) * old.width + old.left - (zf * old.width) / 2 as real,
        top: old.top - (cy / sh) * old.height + (zf * old.height) / 2 as real,
        width: zf * old.width,
        height: zf * old.height,
    }
}

/// The history after one undo: the top is dropped unless it is the root.
pub open spec fn undone(h: Seq<FloatRect>) -> Seq<FloatRect> {
    if h.len() > 1 {
        h.drop_last()
    } else {
        h
    }
}

/// The history after `n` undos in a row.
pub open spec fn undone_times(h: Seq<FloatRect>, n: nat) -> Seq<FloatRect>
    decreases n,
{
    if n == 0 {
        h
    } else {
        undone(undone_times(h, (n - 1) as nat))
    }
}

/// A user action on the view.
#[derive(Debug, Clone, Copy, PartialEq, Eq, Structural)]
pub enum Command {
    /// A click at pixel `(x, y)` of the surface.
    ZoomIn { x: i32, y: i32 },
    /// Go back to the previous view.
    Undo,
    /// Write the current frame out.
    SaveSnapshot,
    /// Leave.
    Quit,
}

/// What the caller has to do after a command.
#[derive(Debug, Clone, Copy, PartialEq, Eq, Structural)]
pub enum Effect {
    /// The view changed: render and show it.
    Redraw,
    /// Hand the current frame to the file writer.
    Save,
    /// Close the surface.
    Close,
    /// Nothing changed.
    Nothing,
}

/// The stack of views visited, oldest first; the current view is on top.
pub struct Navigator {
    views: Vec<FloatRect>,
}

impl Navigator {
    /// The views on the stack, oldest first.
    pub closed spec fn history(&self) -> Seq<FloatRect> {
        self.views@
    }

    /// The stack is never empty, and each view on it is a viewport proper.
    pub open spec fn wf(&self) -> bool {
        &&& self.history().len() >= 1
        &&& forall|i: int| 0 <= i < self.history().len() ==> (#[trigger] self.history()[i]).wf()
    }

    /// A history that holds only `root`.
    pub fn new(root: FloatRect) -> (r: Navigator)
        requires
            root.wf(),
        ensures
            r.wf(),
            r.history() == seq![root],
    {
        let mut views: Vec<FloatRect> = Vec::new();
        views.push(root);
        Navigator { views }
    }

    /// The view on top of the stack.
    pub fn current(&self) -> (r: &FloatRect)
        requires
            self.wf(),
        ensures
            *r == self.history().last(),
    {
        let n = self.views.len();
        &self.views[n - 1]
    }

    /// The number of views on the stack, the root included.
    pub fn depth(&self) -> (r: usize)
        ensures
            r == self.history().len(),
    {
        self.views.len()
    }

    /// Pushes the view that a click at `(click_x, click_y)` on a
    /// `surface_w` by `surface_h` surface showing the current view leads to.
    pub fn zoom_in(
        &mut self,
        click_x: u32,
        click_y: u32,
        surface_w: u32,
        surface_h: u32,
        zoom_factor: &BigRational,
    )
        requires
            old(self).wf(),
            surface_w > 0,
            surface_h > 0,
            rat_ok(*zoom_factor),
            rat_value(*zoom_factor) > 0 as real,
        ensures
            final(self).wf(),
            final(self).history().drop_last() == old(self).history(),
            final(self).history().len() == old(self).history().len() + 1,
            final(self).history().last()@ == zoomed(
                old(self).history().last()@,
                click_x as real,
                click_y as real,
                surface_w as real,
                surface_h as real,
                rat_value(*zoom_factor),
            ),
    {
        let n = self.views.len();
        let old_view = &self.views[n - 1];
        let two = rat_from_int(2);
        let fx = rat_div(&rat_from_int(click_x as i64), &rat_from_int(surface_w as i64));
        let fy = rat_div(&rat_from_int(click_y as i64), &rat_from_int(surface_h as i64));
        let width = rat_mul(zoom_factor, &old_view.width);
        let height = rat_mul(zoom_factor, &old_view.height);
        let left = rat_sub(
            &rat_add(&rat_mul(&fx, &old_view.width), &old_view.left),
            &rat_div(&width, &two),
        );
        let top = rat_add(
            &rat_sub(&old_view.top, &rat_mul(&fy, &old_view.height)),
            &rat_div(&height, &two),
        );
        let next = FloatRect::new(left, top, width, height);
        proof {
            let zf = rat_value(*zoom_factor);
            let ow = old_view@.width;
            let oh = old_view@.height;
            assert(old(self).views@[n - 1].wf());
            assert(zf * ow > 0 as real && zf * oh > 0 as real) by (nonlinear_arith)
                requires
                    zf > 0 as real,
                    ow > 0 as real,
                    oh > 0 as real,
            ;
        }
        self.views.push(next);
        assert(self.views@.drop_last() =~= old(self).views@);
    }

    /// Applies one command to the history of a `surface_w` by `surface_h`
    /// surface: a click inside the surface zooms by `zoom_factor`; a click
    /// outside it, or a zoom factor that is not a positive ratio, is ignored;
    /// an undo at the root changes nothing.
    pub fn handle(
        &mut self,
        cmd: Command,
        surface_w: u32,
        surface_h: u32,
        zoom_factor: &BigRational,
    ) -> (e: Effect)
        requires
            old(self).wf(),
        ensures
            final(self).wf(),
            cmd matches Command::ZoomIn { x, y } ==> {
                if 0 <= x < surface_w && 0 <= y < surface_h && rat_ok(*zoom_factor) && rat_value(
                    *zoom_factor,
                ) > 0 as real {
                    &&& e == Effect::Redraw
                    &&& final(self).history().drop_last() == old(self).history()
                    &&& final(self).history().len() == old(self).history().len() + 1
                    &&& final(self).history().last()@ == zoomed(
                        old(self).history().last()@,
                        x as real,
                        y as real,
                        surface_w as real,
                        surface_h as real,
                        rat_value(*zoom_factor),
                    )
                } else {
                    e == Effect::Nothing && final(self).history() == old(self).history()
                }
            },
            cmd is Undo ==> final(self).history() == undone(old(self).history()) && e == (if old(
                self,
            ).history().len() > 1 {
                Effect::Redraw
            } else {
                Effect::Nothing
            }),
            cmd is SaveSnapshot ==> e == Effect::Save && final(self).history() == old(self).history(),
            cmd is Quit ==> e == Effect::Close && final(self).history() == old(self).history(),
    {
        match cmd {
            Command::ZoomIn { x, y } => {
                let inside = 0 <= x && (x as u32) < surface_w && 0 <= y && (y as u32) < surface_h;
                if inside && rat_is_valid(zoom_factor) && rat_gt(
                    &rat_reduced(zoom_factor),
                    &rat_from_int(0),
                ) {
                    self.zoom_in(x as u32, y as u32, surface_w, surface_h, zoom_factor);
                    Effect::Redraw
                } else {
                    Effect::Nothing
                }
            },
            Command::Undo => {
                if self.views.len() > 1 {
                    self.undo();
                    Effect::Redraw
                } else {
                    Effect::Nothing
                }
            },
            Command::SaveSnapshot => Effect::Save,
            Command::Quit => Effect::Close,
        }
    }

    /// Drops the current view, unless it is the root: then nothing changes.
    pub fn undo(&mut self)
        requires
            old(self).wf(),
        ensures
            final(self).wf(),
            final(self).history() == undone(old(self).history()),
    {
        if self.views.len() > 1 {
            self.views.pop();
            assert(self.views@ =~= old(self).views@.drop_last());
        }
    }
}

/// A zoom followed at once by an undo gives back the history as it was,
/// whatever zooms came before: `before` is the navigator ahead of `zoom_in`,
/// `zoomed` what that call left, and `after` what `undo` then left.
pub proof fn lemma_undo_reverts_zoom(before: Navigator, zoomed: Navigator, after: Navigator)
    requires
        before.wf(),
        zoomed.history().drop_last() == before.history(),
        zoomed.history().len() == before.history().len() + 1,
        after.history() == undone(zoomed.history()),
    ensures
        after.history() == before.history(),
        after.history().last() == before.history().last(),
{
}

/// At the root, any number of undos leaves the history, and so the current
/// view, as it is.
pub proof fn lemma_undo_at_root(h: Seq<FloatRect>, n: nat)
    requires
        h.len() == 1,
    ensures
        undone_times(h, n) == h,
        undone_times(h, n).last() == h.last(),
    decreases n,
{
    if n > 0 {
        lemma_undo_at_root(h, (n - 1) as nat);
    }
}

} // verus!
