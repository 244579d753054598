//! The effect chain: an ordered sequence of effects, fixed at construction,
//! applied to a frame one after the other. A disabled effect is a no-op; an
//! enabled one replaces the working frame with its transform's output.

use vstd::prelude::*;

verus! {

use crate::effect::{Effect, EffectKind, apply_kind_view, invert_view, flip_h_view,
    kind_fits, lemma_invert_flip_h_commute, toggle_rel};
use crate::frame::{Frame, FrameView};

/// What one chain position makes of the working frame: the transform's output
/// if the effect is enabled, the frame untouched otherwise.
pub open spec fn step_view(e: Effect, f: FrameView) -> FrameView {
    if e.enabled {
        apply_kind_view(e.kind, f)
    } else {
        f
    }
}

/// What the whole chain makes of a frame, front to back.
pub open spec fn run_all_view(effects: Seq<Effect>, f: FrameView) -> FrameView
    decreases effects.len(),
{
    if effects.len() == 0 {
        f
    } else {
        run_all_view(effects.skip(1), step_view(effects[0], f))
    }
}

/// Every enabled transform's output buffer stays addressable, at each stage
/// of the chain in turn.
pub open spec fn chain_fits(effects: Seq<Effect>, f: FrameView) -> bool
    decreases effects.len(),
{
    if effects.len() == 0 {
        true
    } else {
        &&& (effects[0].enabled ==> kind_fits(effects[0].kind, f))
        &&& chain_fits(effects.skip(1), step_view(effects[0], f))
    }
}

/// Effect names are the UI labels and lookup keys, so no two may coincide.
pub open spec fn names_unique(effects: Seq<Effect>) -> bool {
    forall|i: int, j: int|
        0 <= i < j < effects.len() ==> effects[i].name@ != effects[j].name@
}

/// An ordered collection of effects. Order is fixed at construction and
/// determines application order; names are unique within the chain.
pub struct EffectChain {
    pub effects: Vec<Effect>,
}

impl View for EffectChain {
    type V = Seq<Effect>;

    open spec fn view(&self) -> Seq<Effect> {
        self.effects@
    }
}

impl EffectChain {
    /// The chain's invariant: no two effects share a name.
    pub open spec fn wf(self) -> bool {
        names_unique(self@)
    }

    /// Fixes the given effects, in the given order, as the chain.
    pub fn new(effects: Vec<Effect>) -> (chain: EffectChain)
        requires
            names_unique(effects@),
        ensures
            chain@ == effects@,
            chain.wf(),
    {
        EffectChain { effects }
    }

    /// How many effects the chain holds.
    pub fn len(&self) -> (n: usize)
        ensures
            n == self@.len(),
    {
        self.effects.len()
    }

    /// Whether the effect at `index` is currently enabled.
    pub fn is_enabled(&self, index: usize) -> (on: bool)
        requires
            index < self@.len(),
        ensures
            on == self@[index as int].enabled,
    {
        self.effects[index].enabled
    }

    /// Flips the enabled flag of the effect at `index`; the rest of the chain
    /// is untouched. This is what a preview window's toggle control calls.
    pub fn toggle(&mut self, index: usize)
        requires
            index < old(self)@.len(),
        ensures
            final(self)@.len() == old(self)@.len(),
            toggle_rel(old(self)@[index as int], final(self)@[index as int]),
            forall|i: int|
                0 <= i < old(self)@.len() && i != index ==> final(self)@[i] == old(self)@[i],
            old(self).wf() ==> final(self).wf(),
    {
        let e = &mut self.effects[index];
        e.toggle();
        proof {
            if old(self).wf() {
                assert forall|i: int, j: int|
                    0 <= i < j < self@.len() implies self@[i].name@ != self@[j].name@ by {
                    assert(old(self)@[i].name@ != old(self)@[j].name@);
                }
            }
        }
    }

    /// Applies the enabled effects to the frame, in chain order, and returns
    /// the final frame; with every effect disabled the frame comes back
    /// unchanged.
    pub fn run_all(&self, frame: Frame) -> (r: Frame)
        requires
            frame@.wf(),
            chain_fits(self@, frame@),
        ensures
            r@ == run_all_view(self@, frame@),
            r@.wf(),
    {
        let ghost all = self@;
        proof {
            assert(all.skip(0) =~= all);
        }
        let n = self.effects.len();
        let mut working = frame;
        let mut k: usize = 0;
        while k < n
            invariant
                k <= n,
                n == all.len(),
                all == self@,
                working@.wf(),
                chain_fits(all.skip(k as int), working@),
                run_all_view(all, frame@) == run_all_view(all.skip(k as int), working@),
            decreases n - k,
        {
            let ghost rest = all.skip(k as int);
            let ghost before = working@;
            proof {
                assert(rest.skip(1) =~= all.skip(k + 1));
                assert(rest[0] == all[k as int]);
            }
            let e = &self.effects[k];
            if e.enabled {
                working = e.apply(working);
            }
            proof {
                assert(working@ == step_view(rest[0], before));
                assert(run_all_view(rest, before)
                    == run_all_view(rest.skip(1), step_view(rest[0], before)));
                assert(chain_fits(rest.skip(1), step_view(rest[0], before)));
            }
            k = k + 1;
        }
        proof {
            assert(all.skip(n as int) =~= Seq::<Effect>::empty());
        }
        working
    }
}

/// The stock chain: invert, horizontal flip, vertical flip, scale, in that
/// order, under their UI labels, all initially disabled.
pub fn standard_chain() -> (chain: EffectChain)
    ensures
        chain.wf(),
        chain@.len() == 4,
        chain@[0].kind == EffectKind::Invert,
        chain@[1].kind == EffectKind::FlipHorizontal,
        chain@[2].kind == EffectKind::FlipVertical,
        chain@[3].kind == EffectKind::Scale,
        forall|i: int| 0 <= i < 4 ==> !(#[trigger] chain@[i]).enabled,
{
    let invert = Effect::new("Invert".to_owned(), EffectKind::Invert);
    let horiz = Effect::new("Horizontal flip".to_owned(), EffectKind::FlipHorizontal);
    let vert = Effect::new("Vertical flip".to_owned(), EffectKind::FlipVertical);
    let scale = Effect::new("Scale".to_owned(), EffectKind::Scale);
    let mut effects: Vec<Effect> = Vec::new();
    effects.push(invert);
    effects.push(horiz);
    effects.push(vert);
    effects.push(scale);
    proof {
        reveal_strlit("Invert");
        reveal_strlit("Horizontal flip");
        reveal_strlit("Vertical flip");
        reveal_strlit("Scale");
        assert(effects@ =~= seq![invert, horiz, vert, scale]);
        assert("Invert"@.len() == 6);
        assert("Horizontal flip"@.len() == 15);
        assert("Vertical flip"@.len() == 13);
        assert("Scale"@.len() == 5);
        assert(invert.name@ != horiz.name@);
        assert(invert.name@ != vert.name@);
        assert(invert.name@ != scale.name@);
        assert(horiz.name@ != vert.name@);
        assert(horiz.name@ != scale.name@);
        assert(vert.name@ != scale.name@);
        assert forall|i: int, j: int|
            0 <= i < j < effects@.len() implies effects@[i].name@ != effects@[j].name@ by {
            assert(effects@.len() == 4);
        }
        assert(names_unique(effects@));
    }
    EffectChain::new(effects)
}

/// A chain with every effect disabled returns each frame unmodified.
pub proof fn lemma_all_disabled_identity(effects: Seq<Effect>, f: FrameView)
    requires
        forall|i: int| 0 <= i < effects.len() ==> !(#[trigger] effects[i]).enabled,
    ensures
        run_all_view(effects, f) == f,
    decreases effects.len(),
{
    if effects.len() > 0 {
        assert(!effects[0].enabled);
        lemma_all_disabled_identity(effects.skip(1), f);
    }
}

/// The chain never changes a frame's dimensions unless an enabled effect
/// explicitly declares a resize: with no scale effect switched on, the output
/// has the input's width and height.
pub proof fn lemma_no_resize_without_scale(effects: Seq<Effect>, f: FrameView)
    requires
        forall|i: int|
            0 <= i < effects.len() && (#[trigger] effects[i]).enabled
                ==> effects[i].kind != EffectKind::Scale,
    ensures
        run_all_view(effects, f).width == f.width,
        run_all_view(effects, f).height == f.height,
    decreases effects.len(),
{
    if effects.len() > 0 {
        let g = step_view(effects[0], f);
        assert(g.width == f.width && g.height == f.height);
        assert(forall|i: int|
            0 <= i < effects.skip(1).len() && (#[trigger] effects.skip(1)[i]).enabled
                ==> effects.skip(1)[i].kind != EffectKind::Scale);
        lemma_no_resize_without_scale(effects.skip(1), g);
    }
}

/// Inversion and horizontal flip commute, so the two-effect chains
/// `[flip horizontal, invert]` and `[invert, flip horizontal]`, both effects
/// enabled, give identical output for every valid frame.
pub proof fn lemma_flip_invert_order_irrelevant(e1: Effect, e2: Effect, f: FrameView)
    requires
        e1.kind == EffectKind::FlipHorizontal,
        e2.kind == EffectKind::Invert,
        e1.enabled,
        e2.enabled,
        f.wf(),
    ensures
        run_all_view(seq![e1, e2], f) == run_all_view(seq![e2, e1], f),
{
    let a = seq![e1, e2];
    let b = seq![e2, e1];
    assert(a.skip(1) =~= seq![e2]);
    assert(b.skip(1) =~= seq![e1]);
    assert(seq![e2].skip(1) =~= Seq::<Effect>::empty());
    assert(seq![e1].skip(1) =~= Seq::<Effect>::empty());
    let g = flip_h_view(f);
    let e = invert_view(f);
    assert(run_all_view(a, f) == run_all_view(seq![e2], g));
    assert(run_all_view(seq![e2], g) == run_all_view(Seq::<Effect>::empty(), invert_view(g)));
    assert(run_all_view(Seq::<Effect>::empty(), invert_view(g)) == invert_view(g));
    assert(run_all_view(b, f) == run_all_view(seq![e1], e));
    assert(run_all_view(seq![e1], e) == run_all_view(Seq::<Effect>::empty(), flip_h_view(e)));
    assert(run_all_view(Seq::<Effect>::empty(), flip_h_view(e)) == flip_h_view(e));
    lemma_invert_flip_h_commute(f);
}

} // verus!
