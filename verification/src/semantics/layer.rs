//! Layers and the ordered OverlayFS composition they form.
use vstd::prelude::*;

verus! {

/// Role a layer plays in the LayerFS composition.
#[derive(Debug, Clone, Copy, PartialEq, Eq, Structural, Hash)]
pub enum LayerKind {
    Base,
    Update,
    UpdateHead,
    Override,
}

/// A single resolved, mountable layer on the backing store.
#[derive(Debug, Clone)]
pub struct Layer {
    pub kind: LayerKind,
    pub id: String,
    pub path: String,
    pub read_only: bool,
}

/// `Layer` with its strings taken as character sequences.
pub struct LayerView {
    pub kind: LayerKind,
    pub id: Seq<char>,
    pub path: Seq<char>,
    pub read_only: bool,
}

impl View for Layer {
    type V = LayerView;

    open spec fn view(&self) -> LayerView {
        LayerView { kind: self.kind, id: self.id@, path: self.path@, read_only: self.read_only }
    }
}

pub open spec fn layer_view(kind: LayerKind, id: Seq<char>, path: Seq<char>, read_only: bool) -> LayerView {
    LayerView { kind, id, path, read_only }
}

impl Layer {
    pub fn new(kind: LayerKind, id: &str, path: &str, read_only: bool) -> (r: Self)
        ensures
            r@ == layer_view(kind, id@, path@, read_only),
    {
        Layer { kind, id: id.to_owned(), path: path.to_owned(), read_only }
    }
}

/// Ordered OverlayFS composition, highest-priority layer first.
///
/// `layers[0]` is the writable upperdir when present; the rest are lowerdirs
/// in descending priority.
#[derive(Debug, Clone)]
pub struct LayerStack {
    pub layers: Vec<Layer>,
}

pub open spec fn layers_view(v: Seq<Layer>) -> Seq<LayerView> {
    v.map_values(|l: Layer| l@)
}

impl View for LayerStack {
    type V = Seq<LayerView>;

    open spec fn view(&self) -> Seq<LayerView> {
        layers_view(self.layers@)
    }
}

/// Whether a stack has a writable layer on top (its upperdir).
pub open spec fn has_upper(s: Seq<LayerView>) -> bool {
    s.len() > 0 && !s[0].read_only
}

/// The lowerdirs: every layer but the upperdir, in order.
pub open spec fn lowers_of(s: Seq<LayerView>) -> Seq<LayerView> {
    if has_upper(s) {
        s.drop_first()
    } else {
        s
    }
}

impl LayerStack {
    pub fn new() -> (r: Self)
        ensures
            r@ == Seq::<LayerView>::empty(),
    {
        let r = LayerStack { layers: Vec::new() };
        assert(r@ =~= Seq::<LayerView>::empty());
        r
    }

    pub fn push(&mut self, layer: Layer) -> (r: &mut Self)
        ensures
            (*r)@ == old(self)@.push(layer@),
            *final(self) == *final(r),
    {
        let ghost before = self.layers@;
        self.layers.push(layer);
        assert(layers_view(self.layers@) =~= layers_view(before).push(layer@));
        self
    }

    /// The upperdir, if this stack has a writable layer at the top.
    pub fn upper(&self) -> (r: Option<&Layer>)
        ensures
            match r {
                Some(l) => has_upper(self@) && l@ == self@[0],
                None => !has_upper(self@),
            },
    {
        if self.layers.len() > 0 && !self.layers[0].read_only {
            Some(&self.layers[0])
        } else {
            None
        }
    }

    /// Lowerdirs in the order OverlayFS expects (highest priority first).
    pub fn lowers(&self) -> (r: Vec<&Layer>)
        ensures
            r@.len() == lowers_of(self@).len(),
            forall|i: int| 0 <= i < r@.len() ==> (#[trigger] r@[i])@ == lowers_of(self@)[i],
    {
        let skip: usize = if self.upper().is_some() {
            1
        } else {
            0
        };
        let mut r: Vec<&Layer> = Vec::new();
        let mut i = skip;
        while i < self.layers.len()
            invariant
                skip <= i <= self.layers@.len(),
                skip == (if has_upper(self@) {
                    1int
                } else {
                    0int
                }),
                r@.len() == i - skip,
                forall|j: int| 0 <= j < r@.len() ==> (#[trigger] r@[j])@ == self@[j + skip],
            decreases self.layers.len() - i,
        {
            r.push(&self.layers[i]);
            i += 1;
        }
        r
    }
}

/// The upperdir and the lowerdirs together are the whole stack: the
/// lowers are exactly the layers below the upper, or all of them.
pub proof fn upper_and_lowers_partition(s: Seq<LayerView>)
    ensures
        lowers_of(s).len() + (if has_upper(s) {
            1int
        } else {
            0int
        }) == s.len(),
        has_upper(s) ==> s =~= seq![s[0]] + lowers_of(s),
        !has_upper(s) ==> s =~= lowers_of(s),
{
}

} // verus!
