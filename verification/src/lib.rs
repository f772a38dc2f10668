//! Backend-generic building blocks for predictive-coding pipelines: factor
//! graph metadata, inference schedules, clipping geometry and the decision
//! logic of predictive context discovery.
use vstd::prelude::*;

pub mod context;
pub mod graph;
pub mod optimizer;
pub mod schedule;

verus! {

/// Geometry used to normalize independent latent corrections.
///
/// `PerSample` keeps one clipping norm for every leading batch element and is
/// invariant to batch replication. `PerRow` treats the final axis as features
/// and every leading-axis position as an independent observation, which is the
/// appropriate geometry for token activities. `Global` is retained for
/// experiments that intentionally couple every element of a latent tensor.
#[derive(Debug, Clone, Copy, PartialEq, Eq, Structural)]
pub enum PcGradientNormScope {
    Global,
    PerSample,
    PerRow,
}

impl Default for PcGradientNormScope {
    fn default() -> (r: Self)
        ensures
            r == PcGradientNormScope::PerSample,
    {
        PcGradientNormScope::PerSample
    }
}

/// The product of the extents, multiplied from the first to the last.
pub open spec fn extent_product(dims: Seq<usize>) -> int
    decreases dims.len(),
{
    if dims.len() == 0 {
        1
    } else {
        extent_product(dims.drop_last()) * dims.last()
    }
}

/// Every running product of the extents, from the first on, fits in `usize`.
pub open spec fn extent_product_fits(dims: Seq<usize>) -> bool {
    forall|k: int| 0 <= k <= dims.len() ==> #[trigger] extent_product(dims.take(k)) <= usize::MAX
}

/// The shape of a clipping-norm tensor: it has the rank of the input. Global
/// geometry has shape `[1; D]`; per-sample geometry keeps the batch extent on
/// axis zero and singleton extents elsewhere; per-row geometry keeps every
/// leading axis and makes the final axis a singleton.
pub open spec fn norm_shape_of(scope: PcGradientNormScope, dims: Seq<usize>) -> Seq<usize> {
    Seq::new(
        dims.len(),
        |i: int|
            match scope {
                PcGradientNormScope::Global => 1usize,
                PcGradientNormScope::PerSample => if i == 0 {
                    dims[0]
                } else {
                    1usize
                },
                PcGradientNormScope::PerRow => if i == dims.len() - 1 {
                    1usize
                } else {
                    dims[i]
                },
            },
    )
}

/// The clipping groups and the elements per group: one group for global
/// geometry, one per batch element for per-sample geometry, one per
/// leading-axis position for per-row geometry.
pub open spec fn group_matrix_of(scope: PcGradientNormScope, dims: Seq<usize>) -> (int, int) {
    match scope {
        PcGradientNormScope::Global => (1, extent_product(dims)),
        PcGradientNormScope::PerSample => (dims[0] as int, extent_product(dims.drop_first())),
        PcGradientNormScope::PerRow => (extent_product(dims.drop_last()), dims.last() as int),
    }
}

/// The running products that computing the group matrix multiplies.
pub open spec fn group_matrix_fits(scope: PcGradientNormScope, dims: Seq<usize>) -> bool {
    match scope {
        PcGradientNormScope::Global => extent_product_fits(dims),
        PcGradientNormScope::PerSample => extent_product_fits(dims.drop_first()),
        PcGradientNormScope::PerRow => extent_product_fits(dims.drop_last()),
    }
}

proof fn lemma_extent_product_first(dims: Seq<usize>)
    requires
        dims.len() > 0,
    ensures
        extent_product(dims) == dims[0] * extent_product(dims.drop_first()),
    decreases dims.len(),
{
    if dims.len() == 1 {
        assert(dims.drop_last() =~= Seq::<usize>::empty());
        assert(dims.drop_first() =~= Seq::<usize>::empty());
    } else {
        let rest = dims.drop_last();
        lemma_extent_product_first(rest);
        assert(rest.drop_first() =~= dims.drop_first().drop_last());
        assert(dims.drop_first().last() == dims.last());
        vstd::arithmetic::mul::lemma_mul_is_associative(
            dims[0] as int,
            extent_product(rest.drop_first()),
            dims.last() as int,
        );
    }
}

/// Multiplies the extents `dims[lo..hi]` from the first to the last.
fn product_of_extents(dims: &[usize], lo: usize, hi: usize) -> (p: usize)
    requires
        lo <= hi <= dims@.len(),
        extent_product_fits(dims@.subrange(lo as int, hi as int)),
    ensures
        p == extent_product(dims@.subrange(lo as int, hi as int)),
{
    let ghost part = dims@.subrange(lo as int, hi as int);
    let mut p: usize = 1;
    let mut k: usize = lo;
    while k < hi
        invariant
            lo <= k <= hi <= dims@.len(),
            part == dims@.subrange(lo as int, hi as int),
            extent_product_fits(part),
            p == extent_product(part.take(k - lo)),
        decreases hi - k,
    {
        proof {
            assert(part.take(k + 1 - lo).drop_last() =~= part.take(k - lo));
            assert(part.take(k + 1 - lo).last() == dims@[k as int]);
            assert(extent_product(part.take(k + 1 - lo)) <= usize::MAX);
        }
        p = p * dims[k];
        k += 1;
    }
    proof {
        assert(part.take(hi - lo) =~= part);
    }
    p
}

impl PcGradientNormScope {
    /// The shape of the clipping-norm tensor for an input of shape `dims`.
    pub fn norm_shape(self, dims: &[usize]) -> (shape: Vec<usize>)
        requires
            dims@.len() >= 1,
        ensures
            shape@ == norm_shape_of(self, dims@),
    {
        let rank = dims.len();
        let mut shape: Vec<usize> = Vec::new();
        let mut i: usize = 0;
        while i < rank
            invariant
                rank == dims@.len(),
                rank >= 1,
                0 <= i <= rank,
                shape@ =~= norm_shape_of(self, dims@).take(i as int),
            decreases rank - i,
        {
            let extent = match self {
                PcGradientNormScope::Global => 1,
                PcGradientNormScope::PerSample => if i == 0 {
                    dims[0]
                } else {
                    1
                },
                PcGradientNormScope::PerRow => if i == rank - 1 {
                    1
                } else {
                    dims[i]
                },
            };
            shape.push(extent);
            i += 1;
        }
        shape
    }

    /// The clipping groups and the elements per group for an input of shape
    /// `dims`, the matrix `[groups, width]` that the input is reshaped to.
    pub fn group_matrix(self, dims: &[usize]) -> (r: (usize, usize))
        requires
            dims@.len() >= 1,
            group_matrix_fits(self, dims@),
        ensures
            (r.0 as int, r.1 as int) == group_matrix_of(self, dims@),
    {
        let rank = dims.len();
        match self {
            PcGradientNormScope::Global => {
                proof {
                    assert(dims@.subrange(0, rank as int) =~= dims@);
                }
                (1, product_of_extents(dims, 0, rank))
            },
            PcGradientNormScope::PerSample => {
                proof {
                    assert(dims@.subrange(1, rank as int) =~= dims@.drop_first());
                }
                (dims[0], product_of_extents(dims, 1, rank))
            },
            PcGradientNormScope::PerRow => {
                proof {
                    assert(dims@.subrange(0, rank - 1) =~= dims@.drop_last());
                }
                (product_of_extents(dims, 0, rank - 1), dims[rank - 1])
            },
        }
    }
}

/// The clipping geometry keeps the documented axes: global geometry has one
/// group over all elements and a norm of shape `[1; D]`; per-sample geometry
/// has one group per batch element (axis zero) and keeps only that axis in
/// the norm shape; per-row geometry has one group per leading position, as
/// wide as the final axis, and keeps every axis but the last.
pub proof fn law_norm_geometry_keeps_documented_axes(scope: PcGradientNormScope, dims: Seq<usize>)
    requires
        dims.len() >= 1,
    ensures
        norm_shape_of(scope, dims).len() == dims.len(),
        scope == PcGradientNormScope::Global ==> group_matrix_of(scope, dims).0 == 1
            && forall|i: int| 0 <= i < dims.len() ==> #[trigger] norm_shape_of(scope, dims)[i] == 1,
        scope == PcGradientNormScope::PerSample ==> group_matrix_of(scope, dims).0 == dims[0]
            && norm_shape_of(scope, dims)[0] == dims[0] && forall|i: int|
            1 <= i < dims.len() ==> #[trigger] norm_shape_of(scope, dims)[i] == 1,
        scope == PcGradientNormScope::PerRow ==> group_matrix_of(scope, dims).1 == dims[dims.len()
            - 1] && norm_shape_of(scope, dims)[dims.len() - 1] == 1 && forall|i: int|
            0 <= i < dims.len() - 1 ==> #[trigger] norm_shape_of(scope, dims)[i] == dims[i],
{
}

/// The clipping groups tile the input exactly: groups times elements per
/// group is the number of elements, the norm tensor holds one entry per group,
/// and it has the rank of the input.
pub proof fn law_norm_groups_tile_the_input(scope: PcGradientNormScope, dims: Seq<usize>)
    requires
        dims.len() >= 1,
    ensures
        group_matrix_of(scope, dims).0 * group_matrix_of(scope, dims).1 == extent_product(dims),
        extent_product(norm_shape_of(scope, dims)) == group_matrix_of(scope, dims).0,
        norm_shape_of(scope, dims).len() == dims.len(),
{
    let shape = norm_shape_of(scope, dims);
    match scope {
        PcGradientNormScope::Global => {
            assert(forall|i: int| 0 <= i < shape.len() ==> #[trigger] shape[i] == 1);
            lemma_all_ones_product(shape);
        },
        PcGradientNormScope::PerSample => {
            lemma_extent_product_first(dims);
            lemma_extent_product_first(shape);
            assert(forall|i: int|
                0 <= i < shape.drop_first().len() ==> #[trigger] shape.drop_first()[i] == 1);
            lemma_all_ones_product(shape.drop_first());
            assert(extent_product(shape) == dims[0] as int);
        },
        PcGradientNormScope::PerRow => {
            assert(shape.drop_last() =~= dims.drop_last());
            assert(shape.last() == 1);
            assert(extent_product(shape) == extent_product(dims.drop_last()));
        },
    }
}

proof fn lemma_all_ones_product(s: Seq<usize>)
    requires
        forall|i: int| 0 <= i < s.len() ==> #[trigger] s[i] == 1,
    ensures
        extent_product(s) == 1,
    decreases s.len(),
{
    if s.len() > 0 {
        lemma_all_ones_product(s.drop_last());
    }
}

} // verus!
