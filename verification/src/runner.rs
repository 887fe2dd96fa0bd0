//! Runs the wake-word classifiers: a rolling history of the most recent 16
//! embeddings is kept; once full, every embedding yields the flattened
//! window as the classifiers' next input, and each classifier's raw score is
//! passed through its filter and paired with its name, in installation
//! order.

use vstd::prelude::*;

use crate::embedder::{Embedding, EMBEDDING_LEN};
use crate::fixed::{scale_clamp, scale_value_clamped};
use crate::ring::Ring;
use crate::FP_ONE;

verus! {

pub const NUM_EMBEDDINGS: usize = 16;

/// How a raw classifier score is shaped: scaled, then clamped.
pub struct ModelFilters {
    pub scale: i64,
    pub clamp_lo: i64,
    pub clamp_hi: i64,
}

impl ModelFilters {
    pub open spec fn wf(&self) -> bool {
        self.clamp_lo <= self.clamp_hi
    }

    /// The filtered value of a raw score `v`: `v * scale`, capped at the
    /// upper clamp, raised to the lower clamp.
    pub open spec fn apply_spec(&self, v: int) -> int {
        scale_clamp(v, self.scale as int, self.clamp_lo as int, self.clamp_hi as int)
    }

    pub fn apply(&self, v: i64) -> (r: i64)
        ensures
            r as int == self.apply_spec(v as int),
    {
        scale_value_clamped(v, self.scale, self.clamp_lo, self.clamp_hi)
    }
}

impl Default for ModelFilters {
    /// Unit scale, clamped into `[0, 1]`.
    fn default() -> (r: Self)
        ensures
            r.scale == FP_ONE,
            r.clamp_lo == 0,
            r.clamp_hi == FP_ONE,
            r.wf(),
    {
        ModelFilters { scale: FP_ONE, clamp_lo: 0, clamp_hi: FP_ONE }
    }
}

/// A named wake-word classifier slot: the inference handle itself lives with
/// the caller, keyed by this name.
pub struct NamedModel {
    pub name: String,
    pub filters: ModelFilters,
}

impl NamedModel {
    pub open spec fn wf(&self) -> bool {
        self.filters.wf()
    }

    /// A model slot with the given scale and the default clamp.
    pub fn new(name: String, scale: i64) -> (r: Self)
        ensures
            r.name == name,
            r.filters.scale == scale,
            r.filters.clamp_lo == 0,
            r.filters.clamp_hi == FP_ONE,
            r.wf(),
    {
        NamedModel { name, filters: ModelFilters { scale, clamp_lo: 0, clamp_hi: FP_ONE } }
    }
}

pub struct Runner {
    models: Vec<NamedModel>,
    history: Ring<Embedding>,
    seen: Ghost<int>,
}

impl Runner {
    /// How many embeddings have entered the history so far.
    pub closed spec fn seen(&self) -> int {
        self.seen@
    }

    /// The installed model slots, in installation order.
    pub closed spec fn models(&self) -> Seq<NamedModel> {
        self.models@
    }

    /// The embeddings currently held, oldest first.
    pub closed spec fn hist(&self) -> Seq<Seq<i64>> {
        self.history@.map_values(|e: Embedding| e@)
    }

    pub closed spec fn wf(&self) -> bool {
        &&& self.history.wf()
        &&& self.history.capacity() == NUM_EMBEDDINGS as nat
        &&& self.seen@ >= 0
        &&& self.history@.len() == if self.seen@ < NUM_EMBEDDINGS as int {
            self.seen@
        } else {
            NUM_EMBEDDINGS as int
        }
        &&& forall|k: int| 0 <= k < self.history@.len() ==> (#[trigger] self.history@[k]).wf()
        &&& forall|k: int| 0 <= k < self.models@.len() ==> (#[trigger] self.models@[k]).wf()
        &&& forall|i: int, j: int|
            0 <= i < j < self.models@.len() ==> (#[trigger] self.models@[i]).name@ != (
            #[trigger] self.models@[j]).name@
    }

    pub fn new() -> (r: Self)
        ensures
            r.wf(),
            r.seen() == 0,
            r.models() == Seq::<NamedModel>::empty(),
    {
        Runner { models: Vec::new(), history: Ring::new(NUM_EMBEDDINGS), seen: Ghost(0) }
    }

    /// Install a model slot: a slot with the same name is replaced (its
    /// position dropped, the new slot at the end), otherwise the slot is
    /// appended.
    pub fn add_model(&mut self, model: NamedModel)
        requires
            old(self).wf(),
            model.wf(),
        ensures
            final(self).wf(),
            final(self).seen() == old(self).seen(),
            final(self).hist() == old(self).hist(),
            if exists|i: int|
                0 <= i < old(self).models().len() && (#[trigger] old(self).models()[i]).name@
                    == model.name@ {
                exists|i: int|
                    {
                        &&& 0 <= i < old(self).models().len()
                        &&& (#[trigger] old(self).models()[i]).name@ == model.name@
                        &&& final(self).models() == old(self).models().remove(i).push(model)
                    }
            } else {
                final(self).models() == old(self).models().push(model)
            },
    {
        let mut found: Option<usize> = None;
        let mut k: usize = 0;
        while k < self.models.len()
            invariant
                k <= self.models@.len(),
                *self == *old(self),
                match found {
                    Some(i) => i < k && self.models@[i as int].name@ == model.name@,
                    None => forall|j: int|
                        0 <= j < k as int ==> (#[trigger] self.models@[j]).name@ != model.name@,
                },
            decreases self.models@.len() - k,
        {
            if found.is_none() && self.models[k].name == model.name {
                found = Some(k);
            }
            k = k + 1;
        }
        match found {
            Some(i) => {
                self.models.remove(i);
                self.models.push(model);
            },
            None => {
                self.models.push(model);
            },
        }
    }

    /// Accept one embedding; once the history holds its 16th, emit the
    /// flattened window, oldest embedding first. No output leaves before the
    /// 16th embedding has entered.
    pub fn push_embedding(&mut self, e: Embedding) -> (out: Option<Vec<i64>>)
        requires
            old(self).wf(),
            e.wf(),
        ensures
            final(self).wf(),
            final(self).seen() == old(self).seen() + 1,
            final(self).models() == old(self).models(),
            final(self).hist() == if old(self).hist().len() == NUM_EMBEDDINGS as int {
                old(self).hist().skip(1).push(e@)
            } else {
                old(self).hist().push(e@)
            },
            out is Some <==> final(self).seen() >= NUM_EMBEDDINGS as int,
            out is Some ==> {
                &&& out->Some_0@.len() == (NUM_EMBEDDINGS * EMBEDDING_LEN) as int
                &&& forall|i: int, j: int|
                    0 <= i < NUM_EMBEDDINGS as int && 0 <= j < EMBEDDING_LEN as int
                        ==> #[trigger] out->Some_0@[i * EMBEDDING_LEN as int + j]
                        == final(self).hist()[i][j]
            },
    {
        let ghost e_view = e@;
        let ghost was_full = self.history@.len() == NUM_EMBEDDINGS as int;
        self.history.push(e);
        proof {
            self.seen@ = self.seen@ + 1;
            if was_full {
                assert(self.hist() =~= old(self).hist().skip(1).push(e_view));
            } else {
                assert(self.hist() =~= old(self).hist().push(e_view));
            }
        }
        if !self.history.is_full() {
            return None;
        }

        let mut out: Vec<i64> = Vec::new();
        let mut i: usize = 0;
        while i < NUM_EMBEDDINGS
            invariant
                i <= NUM_EMBEDDINGS,
                self.wf(),
                self.history@.len() == NUM_EMBEDDINGS as int,
                out@.len() == i as int * EMBEDDING_LEN as int,
                forall|g: int, j: int|
                    0 <= g < i as int && 0 <= j < EMBEDDING_LEN as int ==> #[trigger] out@[g
                        * EMBEDDING_LEN as int + j] == self.hist()[g][j],
            decreases NUM_EMBEDDINGS - i,
        {
            let emb = self.history.get(i);
            let mut j: usize = 0;
            while j < EMBEDDING_LEN
                invariant
                    j <= EMBEDDING_LEN,
                    i < NUM_EMBEDDINGS,
                    self.wf(),
                    self.history@.len() == NUM_EMBEDDINGS as int,
                    *emb == self.history@[i as int],
                    emb.wf(),
                    out@.len() == i as int * EMBEDDING_LEN as int + j as int,
                    forall|g: int, jj: int|
                        0 <= g < i as int && 0 <= jj < EMBEDDING_LEN as int ==> #[trigger] out@[g
                            * EMBEDDING_LEN as int + jj] == self.hist()[g][jj],
                    forall|jj: int|
                        0 <= jj < j as int ==> #[trigger] out@[i as int * EMBEDDING_LEN as int + jj]
                            == self.hist()[i as int][jj],
                decreases EMBEDDING_LEN - j,
            {
                out.push(emb.get(j));
                j = j + 1;
            }
            i = i + 1;
        }
        Some(out)
    }

    /// Pair each installed model's name with its filtered score, in
    /// installation order: entry `k` filters `raw[k]` through model `k`'s
    /// filter.
    pub fn activations(&self, raw: &Vec<i64>) -> (acts: Vec<(String, i64)>)
        requires
            self.wf(),
            raw@.len() == self.models().len(),
        ensures
            acts@.len() == self.models().len(),
            forall|k: int|
                0 <= k < acts@.len() ==> (#[trigger] acts@[k]).0@ == self.models()[k].name@
                    && acts@[k].1 as int == self.models()[k].filters.apply_spec(raw@[k] as int),
    {
        let mut acts: Vec<(String, i64)> = Vec::new();
        let mut k: usize = 0;
        while k < self.models.len()
            invariant
                k <= self.models@.len(),
                self.wf(),
                raw@.len() == self.models@.len(),
                acts@.len() == k as int,
                forall|j: int|
                    0 <= j < k as int ==> (#[trigger] acts@[j]).0@ == self.models@[j].name@
                        && acts@[j].1 as int == self.models@[j].filters.apply_spec(raw@[j] as int),
            decreases self.models@.len() - k,
        {
            let name = self.models[k].name.clone();
            let score = self.models[k].filters.apply(raw[k]);
            acts.push((name, score));
            k = k + 1;
        }
        acts
    }
}

/// At the clamp boundaries the filter with unit scale is the identity:
/// a score equal to either clamp bound passes through unchanged.
pub proof fn lemma_filter_identity_at_boundaries(f: ModelFilters)
    requires
        f.wf(),
        f.scale == FP_ONE,
    ensures
        f.apply_spec(f.clamp_lo as int) == f.clamp_lo as int,
        f.apply_spec(f.clamp_hi as int) == f.clamp_hi as int,
{
    lemma_unit_scale(f.clamp_lo as int);
    lemma_unit_scale(f.clamp_hi as int);
}

/// Scaling by `FP_ONE / FP_ONE` changes nothing.
proof fn lemma_unit_scale(v: int)
    ensures
        crate::fixed::mul_div(v, FP_ONE as int, FP_ONE as int) == v,
{
    if v >= 0 {
        assert(v * FP_ONE as int / FP_ONE as int == v) by (nonlinear_arith)
            requires
                v >= 0,
        ;
    } else {
        assert((-v) * FP_ONE as int / FP_ONE as int == -v) by (nonlinear_arith)
            requires
                -v >= 0,
        ;
    }
}

} // verus!
