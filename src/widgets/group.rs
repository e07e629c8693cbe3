use crate::request::RenderRequest;
use crate::sink::Display;
use crate::widgets::Widget;
use vstd::prelude::*;

verus! {

/// Two widgets that are updated, invalidated and drawn together. The state
/// of the group is the pair of the children's states.
pub struct Group<A, B> {
    pub first: A,
    pub second: B,
}

impl<A, B> Group<A, B> {
    pub fn new(first: A, second: B) -> (r: Self)
        ensures
            r.first == first,
            r.second == second,
    {
        Group { first, second }
    }
}

impl<SA, SB, A: Widget<SA>, B: Widget<SB>> Widget<(SA, SB)> for Group<A, B> {
    open spec fn wf(&self) -> bool {
        self.first.wf() && self.second.wf()
    }

    open spec fn pending(&self) -> Seq<RenderRequest> {
        self.first.pending() + self.second.pending()
    }

    open spec fn frame(&self) -> Seq<RenderRequest> {
        self.first.frame() + self.second.frame()
    }

    fn invalidate(&mut self) {
        self.first.invalidate();
        self.second.invalidate();
    }

    /// Hands each child its part of the state.
    fn update(&mut self, state: (SA, SB)) {
        let (a, b) = state;
        self.first.update(a);
        self.second.update(b);
    }

    /// Renders the first child, then the second.
    fn render<D: Display>(&mut self, display: &mut D) {
        self.first.render(display);
        self.second.render(display);
        assert(display.received() =~= old(display).received() + old(self).pending());
        assert(self.pending() =~= Seq::<RenderRequest>::empty());
    }
}

/// Which child of a `Mux` is on screen.
#[derive(Debug, Clone, Copy, PartialEq, Eq, Structural)]
pub enum MuxNode {
    First,
    Second,
}

/// Two widgets that share one place on screen; only the active one is drawn.
pub struct Mux<A, B> {
    active: MuxNode,
    first: A,
    second: B,
}

impl<A, B> Mux<A, B> {
    pub closed spec fn active_node(&self) -> MuxNode {
        self.active
    }

    pub closed spec fn first_child(&self) -> A {
        self.first
    }

    pub closed spec fn second_child(&self) -> B {
        self.second
    }

    pub fn new(first: A, second: B, active: MuxNode) -> (r: Self)
        ensures
            r.first_child() == first,
            r.second_child() == second,
            r.active_node() == active,
    {
        Mux { active, first, second }
    }

    pub fn active(&self) -> (r: MuxNode)
        ensures
            r == self.active_node(),
    {
        self.active
    }

    pub fn first_mut(&mut self) -> (r: &mut A)
        ensures
            *r == old(self).first_child(),
            final(self).first_child() == *final(r),
            final(self).second_child() == old(self).second_child(),
            final(self).active_node() == old(self).active_node(),
    {
        &mut self.first
    }

    pub fn second_mut(&mut self) -> (r: &mut B)
        ensures
            *r == old(self).second_child(),
            final(self).second_child() == *final(r),
            final(self).first_child() == old(self).first_child(),
            final(self).active_node() == old(self).active_node(),
    {
        &mut self.second
    }
}

impl<A, B> Mux<A, B> {
    /// Shows `node`. A switch invalidates both children: what was hidden
    /// must be painted, and what was shown is stale.
    pub fn set_active<SA, SB>(&mut self, node: MuxNode)
        where
            A: Widget<SA>,
            B: Widget<SB>,
        requires
            old(self).first_child().wf(),
            old(self).second_child().wf(),
        ensures
            final(self).active_node() == node,
            final(self).first_child().wf(),
            final(self).second_child().wf(),
            node == old(self).active_node() ==> *final(self) == *old(self),
            node != old(self).active_node() ==> final(self).first_child().pending()
                == final(self).first_child().frame() && final(self).second_child().pending()
                == final(self).second_child().frame() && final(self).first_child().frame()
                == old(self).first_child().frame() && final(self).second_child().frame()
                == old(self).second_child().frame(),
    {
        if self.active != node {
            self.active = node;
            self.first.invalidate();
            self.second.invalidate();
        }
    }
}

impl<SA, SB, A: Widget<SA>, B: Widget<SB>> Widget<(SA, SB)> for Mux<A, B> {
    open spec fn wf(&self) -> bool {
        self.first_child().wf() && self.second_child().wf()
    }

    open spec fn pending(&self) -> Seq<RenderRequest> {
        match self.active_node() {
            MuxNode::First => self.first_child().pending(),
            MuxNode::Second => self.second_child().pending(),
        }
    }

    open spec fn frame(&self) -> Seq<RenderRequest> {
        match self.active_node() {
            MuxNode::First => self.first_child().frame(),
            MuxNode::Second => self.second_child().frame(),
        }
    }

    fn invalidate(&mut self) {
        self.first.invalidate();
        self.second.invalidate();
    }

    /// Hands each child its part of the state, shown or not.
    fn update(&mut self, state: (SA, SB)) {
        let (a, b) = state;
        self.first.update(a);
        self.second.update(b);
    }

    /// Draws the active child only.
    fn render<D: Display>(&mut self, display: &mut D) {
        match self.active {
            MuxNode::First => {
                self.first.render(display);
            },
            MuxNode::Second => {
                self.second.render(display);
            },
        }
    }
}

} // verus!
