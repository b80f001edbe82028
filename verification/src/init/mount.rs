//! Which layers a boot assembles, for a checkpoint and a discovered store.
use vstd::prelude::*;

use crate::semantics::checkpoint::{Checkpoint, has_data, has_override, has_update};
use crate::semantics::layer::{
    Layer, LayerKind, LayerStack, LayerView, has_upper, layer_view, lowers_of,
};
use crate::storage::discover::{DiscoveredStore, DiscoveredView};

verus! {

pub open spec fn override_part(cp: Checkpoint, d: DiscoveredView) -> Seq<LayerView> {
    if has_override(cp) && d.override_layer is Some {
        seq![layer_view(LayerKind::Override, "override"@, d.override_layer->0, false)]
    } else {
        seq![]
    }
}

pub open spec fn update_part(cp: Checkpoint, head: bool, d: DiscoveredView) -> Seq<LayerView> {
    if has_update(cp) {
        (if head && d.update_head is Some {
            seq![layer_view(LayerKind::UpdateHead, "update-head"@, d.update_head->0, true)]
        } else {
            seq![]
        }) + (if d.update is Some {
            seq![layer_view(LayerKind::Update, "update"@, d.update->0, true)]
        } else {
            seq![]
        })
    } else {
        seq![]
    }
}

pub open spec fn base_layer(d: DiscoveredView) -> LayerView {
    layer_view(LayerKind::Base, "base"@, d.base, true)
}

/// The stack a checkpoint calls for, highest priority first: OVERRIDE
/// (writable), UPDATE_HEAD, UPDATE, BASE — each only if the checkpoint
/// includes it and the store actually has it; BASE always.
pub open spec fn stack_for(cp: Checkpoint, head: bool, d: DiscoveredView) -> Seq<LayerView> {
    override_part(cp, d) + update_part(cp, head, d) + seq![base_layer(d)]
}

/// Builds the layer stack for a checkpoint from discovered store paths.
/// Pure decision logic: a layer is included only if the checkpoint calls
/// for it and the backing directory actually exists.
pub fn resolve_stack(checkpoint: Checkpoint, head: bool, discovered: &DiscoveredStore) -> (r:
    LayerStack)
    ensures
        r@ == stack_for(checkpoint, head, discovered@),
{
    let mut stack = LayerStack::new();
    let ghost d = discovered@;

    if checkpoint.includes_override() {
        if let Some(path) = &discovered.override_layer {
            stack.push(Layer::new(LayerKind::Override, "override", path.as_str(), false));
        }
    }
    assert(stack@ =~= override_part(checkpoint, d));

    if checkpoint.includes_update() {
        if head {
            if let Some(path) = &discovered.update_head {
                stack.push(Layer::new(LayerKind::UpdateHead, "update-head", path.as_str(), true));
            }
        }
        if let Some(path) = &discovered.update {
            stack.push(Layer::new(LayerKind::Update, "update", path.as_str(), true));
        }
    }
    assert(stack@ =~= override_part(checkpoint, d) + update_part(checkpoint, head, d));

    stack.push(Layer::new(LayerKind::Base, "base", discovered.base.as_str(), true));
    stack
}

/// Priority of a layer kind in the composition (higher shadows lower).
pub open spec fn rank(k: LayerKind) -> int {
    match k {
        LayerKind::Base => 0,
        LayerKind::Update => 1,
        LayerKind::UpdateHead => 2,
        LayerKind::Override => 3,
    }
}

pub open spec fn has_kind(s: Seq<LayerView>, k: LayerKind) -> bool {
    exists|i: int| 0 <= i < s.len() && (#[trigger] s[i]).kind == k
}

/// Every assembled stack ends in BASE, is ordered strictly by priority
/// (each kind at most once), and is writable only in its OVERRIDE layer.
pub proof fn stack_is_ordered(cp: Checkpoint, head: bool, d: DiscoveredView)
    ensures
        ({
            let s = stack_for(cp, head, d);
            &&& s.len() >= 1
            &&& s.last() == base_layer(d)
            &&& forall|i: int, j: int|
                0 <= i < j < s.len() ==> rank(#[trigger] s[i].kind) > rank(#[trigger] s[j].kind)
            &&& forall|i: int| 0 <= i < s.len() ==> (!(#[trigger] s[i]).read_only <==> s[i].kind
                == LayerKind::Override)
        }),
{
    let s = stack_for(cp, head, d);
    let o = override_part(cp, d);
    let u = update_part(cp, head, d);
    assert(s == o + u + seq![base_layer(d)]);
    assert forall|i: int, j: int| 0 <= i < j < s.len() implies rank(#[trigger] s[i].kind) > rank(
        #[trigger] s[j].kind,
    ) by {
        if i < o.len() {
            assert(s[i] == o[i]);
        } else if i < o.len() + u.len() {
            assert(s[i] == u[i - o.len()]);
            if j < o.len() + u.len() {
                assert(s[j] == u[j - o.len()]);
            }
        }
    }
    assert forall|i: int| 0 <= i < s.len() implies (!(#[trigger] s[i]).read_only <==> s[i].kind
        == LayerKind::Override) by {
        if i < o.len() {
            assert(s[i] == o[i]);
        } else if i < o.len() + u.len() {
            assert(s[i] == u[i - o.len()]);
        }
    }
}

/// Which layers a checkpoint assembles: OVERRIDE only for `normal`;
/// UPDATE_HEAD only for checkpoints with updates and `layerfs.head` on;
/// UPDATE for every checkpoint but `base`; each only when the store has it.
pub proof fn stack_membership(cp: Checkpoint, head: bool, d: DiscoveredView)
    ensures
        has_kind(stack_for(cp, head, d), LayerKind::Base),
        has_kind(stack_for(cp, head, d), LayerKind::Override) <==> (cp == Checkpoint::Normal
            && d.override_layer is Some),
        has_kind(stack_for(cp, head, d), LayerKind::UpdateHead) <==> (cp != Checkpoint::Base
            && head && d.update_head is Some),
        has_kind(stack_for(cp, head, d), LayerKind::Update) <==> (cp != Checkpoint::Base
            && d.update is Some),
{
    let s = stack_for(cp, head, d);
    let o = override_part(cp, d);
    let u = update_part(cp, head, d);
    assert(s == o + u + seq![base_layer(d)]);
    assert(s[s.len() - 1].kind == LayerKind::Base);
    if cp == Checkpoint::Normal && d.override_layer is Some {
        assert(s[0].kind == LayerKind::Override);
    }
    if cp != Checkpoint::Base && head && d.update_head is Some {
        assert(s[o.len() as int].kind == LayerKind::UpdateHead);
    }
    if cp != Checkpoint::Base && d.update is Some {
        assert(s[o.len() + u.len() - 1].kind == LayerKind::Update);
    }
    assert forall|i: int| 0 <= i < s.len() implies {
        &&& ((#[trigger] s[i]).kind == LayerKind::Override ==> (cp == Checkpoint::Normal
            && d.override_layer is Some))
        &&& (s[i].kind == LayerKind::UpdateHead ==> (cp != Checkpoint::Base && head
            && d.update_head is Some))
        &&& (s[i].kind == LayerKind::Update ==> (cp != Checkpoint::Base && d.update is Some))
    } by {
        if i < o.len() {
            assert(s[i] == o[i]);
        } else if i < o.len() + u.len() {
            assert(s[i] == u[i - o.len()]);
        }
    }
}

/// The `base` checkpoint is BASE alone, whatever the store holds.
pub proof fn base_checkpoint_is_base_alone(head: bool, d: DiscoveredView)
    ensures
        stack_for(Checkpoint::Base, head, d) =~= seq![base_layer(d)],
{
}

/// `system` and `safe` assemble the same layers; they differ only in
/// whether DATA is mounted.
pub proof fn system_and_safe_share_layers(head: bool, d: DiscoveredView)
    ensures
        stack_for(Checkpoint::System, head, d) == stack_for(Checkpoint::Safe, head, d),
        !has_data(Checkpoint::System),
        has_data(Checkpoint::Safe),
{
}

/// `layerfs.head=off` drops UPDATE_HEAD and nothing else: the stack is the
/// one with it on, minus that layer.
pub proof fn head_off_drops_only_update_head(cp: Checkpoint, d: DiscoveredView)
    ensures
        stack_for(cp, false, d) == stack_for(cp, true, d).filter(
            |l: LayerView| l.kind != LayerKind::UpdateHead,
        ),
{
    let on = stack_for(cp, true, d);
    let off = stack_for(cp, false, d);
    let o = override_part(cp, d);
    let b = seq![base_layer(d)];
    let f = |l: LayerView| l.kind != LayerKind::UpdateHead;
    Seq::filter_distributes_over_add(o + update_part(cp, true, d), b, f);
    Seq::filter_distributes_over_add(o, update_part(cp, true, d), f);
    reveal_with_fuel(Seq::filter, 2);
    assert(o.filter(f) =~= o);
    assert(b.filter(f) =~= b);
    if has_update(cp) {
        let h = if d.update_head is Some {
            seq![layer_view(LayerKind::UpdateHead, "update-head"@, d.update_head->0, true)]
        } else {
            seq![]
        };
        let up = if d.update is Some {
            seq![layer_view(LayerKind::Update, "update"@, d.update->0, true)]
        } else {
            seq![]
        };
        Seq::filter_distributes_over_add(h, up, f);
        assert(h.filter(f) =~= Seq::<LayerView>::empty());
        assert(up.filter(f) =~= up);
        assert(update_part(cp, true, d).filter(f) =~= update_part(cp, false, d));
    } else {
        assert(update_part(cp, true, d).filter(f) =~= update_part(cp, false, d));
    }
    assert(off =~= on.filter(f));
}

/// The writable upperdir is present exactly for `normal` with an OVERRIDE
/// layer in the store; the lowers are then everything below it.
pub proof fn upper_only_for_normal_override(cp: Checkpoint, head: bool, d: DiscoveredView)
    ensures
        has_upper(stack_for(cp, head, d)) <==> (cp == Checkpoint::Normal && d.override_layer is Some),
        lowers_of(stack_for(cp, head, d)) == update_part(cp, head, d) + seq![base_layer(d)],
{
    let s = stack_for(cp, head, d);
    let o = override_part(cp, d);
    let u = update_part(cp, head, d);
    assert(s == o + u + seq![base_layer(d)]);
    if o.len() == 0 {
        assert(s =~= u + seq![base_layer(d)]);
        assert(!s[0].read_only ==> false) by {
            if u.len() > 0 {
                assert(s[0] == u[0]);
            }
        }
    } else {
        assert(s.drop_first() =~= u + seq![base_layer(d)]);
    }
}

} // verus!
