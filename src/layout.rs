//! Shapes, strided layouts and NumPy-style broadcasting.

use vstd::prelude::*;

verus! {

/// Number of elements of a shape: the product of its dimensions, 1 for rank 0.
pub open spec fn shape_size(s: Seq<usize>) -> nat
    decreases s.len(),
{
    if s.len() == 0 {
        1
    } else {
        shape_size(s.drop_last()) * (s.last() as nat)
    }
}

/// Every trailing product of the shape fits a `usize`, so its row-major
/// strides and its size can be computed without overflow.
pub open spec fn shape_fits(s: Seq<usize>) -> bool {
    forall|k: int| 0 <= k <= s.len() ==> #[trigger] shape_size(s.subrange(k, s.len() as int)) <= usize::MAX
}

/// Row-major strides: the stride of a dimension is the product of the
/// dimensions after it.
pub open spec fn contiguous_strides(s: Seq<usize>) -> Seq<usize> {
    Seq::new(s.len(), |k: int| shape_size(s.subrange(k + 1, s.len() as int)) as usize)
}

/// Position, relative to the offset, of the `i`-th element in row-major
/// order of a view with the given shape and strides.
pub open spec fn strided_index(i: nat, shape: Seq<usize>, strides: Seq<usize>) -> nat
    decreases shape.len(),
{
    if shape.len() == 0 || strides.len() == 0 || shape.last() == 0 {
        0
    } else {
        (i % (shape.last() as nat)) * (strides.last() as nat) + strided_index(
            i / (shape.last() as nat),
            shape.drop_last(),
            strides.drop_last(),
        )
    }
}

/// Largest position, relative to the offset, that a view reaches.
pub open spec fn max_reach(shape: Seq<usize>, strides: Seq<usize>) -> nat
    decreases shape.len(),
{
    if shape.len() == 0 || strides.len() == 0 || shape.last() == 0 {
        0
    } else {
        ((shape.last() - 1) as nat) * (strides.last() as nat) + max_reach(
            shape.drop_last(),
            strides.drop_last(),
        )
    }
}

/// A strided view: shape, strides in elements, and offset of the first element.
#[derive(Clone, Debug, PartialEq, Eq)]
pub struct Layout {
    pub shape: Vec<usize>,
    pub strides: Vec<usize>,
    pub offset: usize,
}

/// A layout as plain values.
pub struct LayoutView {
    pub shape: Seq<usize>,
    pub strides: Seq<usize>,
    pub offset: usize,
}

impl View for Layout {
    type V = LayoutView;

    open spec fn view(&self) -> LayoutView {
        LayoutView { shape: self.shape@, strides: self.strides@, offset: self.offset }
    }
}

impl Layout {
    /// A copy of the layout.
    pub fn copy(&self) -> (r: Layout)
        ensures
            r@ == self@,
    {
        let r = Layout { shape: self.shape.clone(), strides: self.strides.clone(), offset: self.offset };
        assert(r.shape@ =~= self.shape@);
        assert(r.strides@ =~= self.strides@);
        r
    }

    /// One stride per dimension, and a size and reach that fit a `usize`.
    pub open spec fn wf(&self) -> bool {
        &&& self.shape@.len() == self.strides@.len()
        &&& shape_fits(self.shape@)
        &&& self.size() > 0 ==> self.offset + max_reach(self.shape@, self.strides@) <= usize::MAX
    }

    pub open spec fn size(&self) -> nat {
        shape_size(self.shape@)
    }

    /// Every element the view reaches lies below `len`.
    pub open spec fn fits_in(&self, len: nat) -> bool {
        self.size() == 0 || self.offset + max_reach(self.shape@, self.strides@) < len
    }

    pub open spec fn is_contiguous(&self) -> bool {
        self.strides@ == contiguous_strides(self.shape@) && self.offset == 0
    }

    /// Storage position of the `i`-th element in row-major order.
    pub open spec fn position(&self, i: nat) -> nat {
        (self.offset + strided_index(i, self.shape@, self.strides@)) as nat
    }

    pub fn ndim(&self) -> (r: usize)
        ensures
            r == self.shape@.len(),
    {
        self.shape.len()
    }

    /// Number of elements of the view.
    pub fn size_exec(&self) -> (r: usize)
        requires
            self.wf(),
        ensures
            r as nat == self.size(),
    {
        proof {
            assert(self.shape@.subrange(0, self.shape@.len() as int) =~= self.shape@);
        }
        checked_shape_size(&self.shape).unwrap()
    }

    /// The contiguous row-major layout of a shape, at offset 0.
    pub fn from_shape(shape: &Vec<usize>) -> (r: Layout)
        requires
            shape_fits(shape@),
        ensures
            r.shape@ == shape@,
            r.is_contiguous(),
            r.wf(),
    {
        let n = shape.len();
        let mut strides: Vec<usize> = Vec::new();
        let mut k: usize = 0;
        while k < n
            invariant
                k <= n,
                n == shape@.len(),
                shape_fits(shape@),
                strides@.len() == k,
                forall|j: int| 0 <= j < k ==> strides@[j] == contiguous_strides(shape@)[j],
            decreases n - k,
        {
            assert(shape_size(shape@.subrange(k + 1, n as int)) <= usize::MAX);
            let s = checked_shape_size_from(shape, k + 1).unwrap();
            strides.push(s);
            k = k + 1;
        }
        assert(strides@ =~= contiguous_strides(shape@));
        let r = Layout { shape: shape.clone(), strides, offset: 0 };
        proof {
            lemma_contiguous_reach(shape@);
            assert(r.shape@ =~= shape@);
        }
        r
    }
}

/// Product of `shape[from..]`, or `None` when the product of some
/// trailing part of it does not fit a `usize`.
pub fn checked_shape_size_from(shape: &Vec<usize>, from: usize) -> (r: Option<usize>)
    requires
        from <= shape@.len(),
    ensures
        match r {
            Some(v) => v as nat == shape_size(shape@.subrange(from as int, shape@.len() as int)),
            None => exists|j: int|
                from <= j <= shape@.len() && #[trigger] shape_size(shape@.subrange(j, shape@.len() as int))
                    > usize::MAX,
        },
{
    let n = shape.len();
    let mut acc: usize = 1;
    let mut k: usize = n;
    assert(shape@.subrange(n as int, n as int) =~= Seq::<usize>::empty());
    while k > from
        invariant
            from <= k <= n,
            n == shape@.len(),
            acc as nat == shape_size(shape@.subrange(k as int, n as int)),
        decreases k - from,
    {
        let d = shape[k - 1];
        let ghost suf = shape@.subrange(k - 1, n as int);
        proof {
            lemma_size_cons(suf);
            assert(suf.drop_first() =~= shape@.subrange(k as int, n as int));
            assert(shape_size(suf) == (d as nat) * (acc as nat));
            assert((d as nat) * (acc as nat) == (acc as nat) * (d as nat)) by (nonlinear_arith);
        }
        match acc.checked_mul(d) {
            Some(v) => {
                acc = v;
            },
            None => {
                assert(shape_size(suf) > usize::MAX);
                return None;
            },
        }
        k = k - 1;
    }
    Some(acc)
}

/// Product of all dimensions, or `None` when it does not fit a `usize`.
pub fn checked_shape_size(shape: &Vec<usize>) -> (r: Option<usize>)
    ensures
        match r {
            Some(v) => v as nat == shape_size(shape@),
            None => !shape_fits(shape@),
        },
{
    proof {
        assert(shape@.subrange(0, shape@.len() as int) =~= shape@);
    }
    checked_shape_size_from(shape, 0)
}

/// Whether every trailing product of the shape fits a `usize`.
pub fn check_shape_fits(shape: &Vec<usize>) -> (r: bool)
    ensures
        r == shape_fits(shape@),
{
    let n = shape.len();
    let mut k: usize = 0;
    while k <= n
        invariant
            n == shape@.len(),
            forall|j: int| 0 <= j < k ==> #[trigger] shape_size(shape@.subrange(j, n as int))
                <= usize::MAX,
        decreases n + 1 - k,
    {
        match checked_shape_size_from(shape, k) {
            Some(_) => {},
            None => {
                return false;
            },
        }
        if k == n {
            return true;
        }
        k = k + 1;
    }
    true
}

/// Size of a non-empty shape, split at its first dimension.
pub proof fn lemma_size_cons(s: Seq<usize>)
    requires
        s.len() > 0,
    ensures
        shape_size(s) == s[0] * shape_size(s.drop_first()),
    decreases s.len(),
{
    assert(shape_size(Seq::<usize>::empty()) == 1);
    if s.len() > 1 {
        lemma_size_cons(s.drop_last());
        assert(s.drop_last().drop_first() =~= s.drop_first().drop_last());
        assert(s.drop_first().last() == s.last());
        assert(s.drop_last()[0] == s[0]);
        assert(shape_size(s.drop_first()) == shape_size(s.drop_first().drop_last()) * (
        s.last() as nat));
        let a = s[0] as nat;
        let b = shape_size(s.drop_first().drop_last());
        let c = s.last() as nat;
        assert(shape_size(s) == shape_size(s.drop_last()) * c);
        assert(shape_size(s.drop_last()) == a * b);
        assert(a * b * c == a * (b * c)) by (nonlinear_arith);
        assert(shape_size(s.drop_first()) == b * c);
        assert(shape_size(s) == a * shape_size(s.drop_first()));
    } else {
        assert(shape_size(s) == shape_size(s.drop_last()) * (s.last() as nat));
        assert(s.drop_last() =~= Seq::<usize>::empty());
        assert(s.drop_first() =~= Seq::<usize>::empty());
        assert(s.last() == s[0]);
        assert(shape_size(s.drop_first()) == 1);
        assert(shape_size(s.drop_last()) == 1);
        assert(shape_size(s) == 1 * (s[0] as nat));
        let x = s[0] as nat;
        let y = shape_size(s.drop_first());
        assert(x * y == 1 * x) by (nonlinear_arith)
            requires
                y == 1,
        ;
    }
}

/// The reach of a contiguous layout is its size less one.
pub proof fn lemma_contiguous_reach(s: Seq<usize>)
    requires
        shape_fits(s),
    ensures
        shape_size(s) > 0 ==> max_reach(s, contiguous_strides(s)) + 1 == shape_size(s),
        shape_size(s) > 0 ==> max_reach(s, contiguous_strides(s)) < usize::MAX,
{
    if shape_size(s) > 0 {
        assert forall|k: int| 0 <= k < s.len() implies (#[trigger] contiguous_strides(s)[k]) as nat
            == 1 * shape_size(s.subrange(k + 1, s.len() as int)) by {
            assert(shape_size(s.subrange(k + 1, s.len() as int)) <= usize::MAX);
        }
        lemma_scaled_reach(s, contiguous_strides(s), 1);
        assert(shape_size(s.subrange(0, s.len() as int)) <= usize::MAX);
        assert(s.subrange(0, s.len() as int) =~= s);
    }
}

/// In a contiguous layout the `i`-th element sits at position `i`.
pub proof fn lemma_contiguous_index(s: Seq<usize>, i: nat)
    requires
        shape_fits(s),
        i < shape_size(s),
    ensures
        strided_index(i, s, contiguous_strides(s)) == i,
{
    assert forall|k: int| 0 <= k < s.len() implies (#[trigger] contiguous_strides(s)[k]) as nat
        == 1 * shape_size(s.subrange(k + 1, s.len() as int)) by {
        assert(shape_size(s.subrange(k + 1, s.len() as int)) <= usize::MAX);
    }
    lemma_scaled_index(s, contiguous_strides(s), 1, i);
}

proof fn lemma_scaled_index(s: Seq<usize>, t: Seq<usize>, c: nat, i: nat)
    requires
        s.len() == t.len(),
        i < shape_size(s),
        forall|k: int| 0 <= k < s.len() ==> (#[trigger] t[k]) as nat == c * shape_size(
            s.subrange(k + 1, s.len() as int),
        ),
    ensures
        strided_index(i, s, t) == c * i,
    decreases s.len(),
{
    if s.len() == 0 {
        assert(shape_size(s) == 1);
        assert(i == 0);
    } else {
        let n = s.len() as int;
        let l = s.last() as nat;
        let sp = s.drop_last();
        let tp = t.drop_last();
        let z = shape_size(sp);
        assert(shape_size(s) == z * l);
        if l == 0 {
            assert(z * l == 0) by (nonlinear_arith)
                requires
                    l == 0,
            ;
        }
        assert(l > 0);
        assert(s.subrange(n, n) =~= Seq::<usize>::empty());
        assert(t.last() as nat == c * 1);
        assert forall|k: int| 0 <= k < sp.len() implies (#[trigger] tp[k]) as nat == (c * l)
            * shape_size(sp.subrange(k + 1, sp.len() as int)) by {
            let u = s.subrange(k + 1, n);
            assert(u.drop_last() =~= sp.subrange(k + 1, sp.len() as int));
            assert(u.last() == s.last());
            assert(shape_size(u) == shape_size(u.drop_last()) * l);
            assert(c * (shape_size(u.drop_last()) * l) == (c * l) * shape_size(u.drop_last()))
                by (nonlinear_arith);
        }
        assert(i / l < z) by (nonlinear_arith)
            requires
                i < z * l,
                l > 0,
        ;
        lemma_scaled_index(sp, tp, c * l, i / l);
        assert(strided_index(i, s, t) == (i % l) * c + strided_index(i / l, sp, tp));
        assert((i % l) * c + (c * l) * (i / l) == c * i) by (nonlinear_arith)
            requires
                l > 0,
        ;
    }
}

/// The reach of row-major strides scaled by `c`.
proof fn lemma_scaled_reach(s: Seq<usize>, t: Seq<usize>, c: nat)
    requires
        s.len() == t.len(),
        shape_size(s) > 0,
        forall|k: int| 0 <= k < s.len() ==> (#[trigger] t[k]) as nat == c * shape_size(
            s.subrange(k + 1, s.len() as int),
        ),
    ensures
        max_reach(s, t) == c * (shape_size(s) - 1),
    decreases s.len(),
{
    if s.len() > 0 {
        let n = s.len() as int;
        let l = s.last() as nat;
        let sp = s.drop_last();
        let tp = t.drop_last();
        assert(shape_size(s) == shape_size(sp) * l);
        if l == 0 {
            assert(shape_size(sp) * l == 0) by (nonlinear_arith)
                requires
                    l == 0,
            ;
        }
        assert(l > 0);
        assert(shape_size(sp) > 0) by (nonlinear_arith)
            requires
                shape_size(sp) * l > 0,
        ;
        assert(s.subrange(n, n) =~= Seq::<usize>::empty());
        assert(t.last() as nat == c * 1);
        assert forall|k: int| 0 <= k < sp.len() implies (#[trigger] tp[k]) as nat == (c * l)
            * shape_size(sp.subrange(k + 1, sp.len() as int)) by {
            let u = s.subrange(k + 1, n);
            assert(u.drop_last() =~= sp.subrange(k + 1, sp.len() as int));
            assert(u.last() == s.last());
            assert(shape_size(u) == shape_size(u.drop_last()) * l);
            assert(c * (shape_size(u.drop_last()) * l) == (c * l) * shape_size(u.drop_last()))
                by (nonlinear_arith);
        }
        lemma_scaled_reach(sp, tp, c * l);
        assert(max_reach(s, t) == ((l - 1) as nat) * c + max_reach(sp, tp));
        let z = shape_size(sp);
        assert(max_reach(sp, tp) == (c * l) * (z - 1));
        assert(((l - 1) as nat) * c + (c * l) * (z - 1) == c * (z * l - 1)) by (nonlinear_arith)
            requires
                l >= 1,
                z >= 1,
        ;
        assert(shape_size(s) == z * l);
        assert(max_reach(s, t) == c * (shape_size(s) - 1));
    } else {
        assert(shape_size(s) == 1);
    }
}

/// Within the size of a view, every element lies within its reach.
pub proof fn lemma_index_within_reach(i: nat, shape: Seq<usize>, strides: Seq<usize>)
    requires
        shape.len() == strides.len(),
        i < shape_size(shape),
    ensures
        strided_index(i, shape, strides) <= max_reach(shape, strides),
    decreases shape.len(),
{
    if shape.len() > 0 {
        let l = shape.last() as nat;
        let st = strides.last() as nat;
        let z = shape_size(shape.drop_last());
        assert(shape_size(shape) == z * l);
        if l == 0 {
            assert(z * l == 0) by (nonlinear_arith)
                requires
                    l == 0,
            ;
        }
        assert(l > 0);
        assert(i / l < z) by (nonlinear_arith)
            requires
                i < z * l,
                l > 0,
        ;
        assert((i % l) * st <= ((l - 1) as nat) * st) by (nonlinear_arith)
            requires
                l > 0,
        ;
        lemma_index_within_reach(i / l, shape.drop_last(), strides.drop_last());
    }
}

/// Storage position of the `i`-th element, in row-major order, of a view.
pub fn position_of(layout: &Layout, i: usize) -> (r: usize)
    requires
        layout.wf(),
        i < layout.size(),
    ensures
        r as nat == layout.position(i as nat),
{
    let n = layout.shape.len();
    let ghost shape = layout.shape@;
    let ghost strides = layout.strides@;
    let ghost target = layout.position(i as nat);
    proof {
        lemma_index_within_reach(i as nat, shape, strides);
        assert(shape.subrange(0, n as int) =~= shape);
        assert(strides.subrange(0, n as int) =~= strides);
    }
    let mut k: usize = n;
    let mut rem: usize = i;
    let mut pos: usize = layout.offset;
    while k > 0
        invariant
            k <= n,
            n == shape.len(),
            n == strides.len(),
            shape == layout.shape@,
            strides == layout.strides@,
            rem < shape_size(shape.subrange(0, k as int)),
            pos + strided_index(rem as nat, shape.subrange(0, k as int), strides.subrange(0, k as int))
                == target,
            target <= usize::MAX,
        decreases k,
    {
        let d = layout.shape[k - 1];
        let st = layout.strides[k - 1];
        let ghost sp = shape.subrange(0, k as int);
        let ghost tp = strides.subrange(0, k as int);
        proof {
            assert(sp.drop_last() =~= shape.subrange(0, k - 1));
            assert(tp.drop_last() =~= strides.subrange(0, k - 1));
            let z = shape_size(sp.drop_last());
            assert(shape_size(sp) == z * (d as nat));
            if d == 0 {
                assert(z * (d as nat) == 0) by (nonlinear_arith)
                    requires
                        d == 0,
                ;
            }
            assert((rem as nat) / (d as nat) < z) by (nonlinear_arith)
                requires
                    rem < z * (d as nat),
                    d > 0,
            ;
        }
        pos = pos + (rem % d) * st;
        rem = rem / d;
        k = k - 1;
    }
    pos
}

/// Dimension `k` of `s` right-aligned to rank `n`: missing leading dimensions are 1.
pub open spec fn padded_dim(s: Seq<usize>, n: int, k: int) -> usize {
    if k < n - s.len() {
        1
    } else {
        s[k - (n - s.len())]
    }
}

pub open spec fn max_rank(a: Seq<usize>, b: Seq<usize>) -> int {
    if a.len() >= b.len() {
        a.len() as int
    } else {
        b.len() as int
    }
}

/// Right-aligned, every pair of dimensions is equal or one of them is 1.
pub open spec fn broadcast_compatible(a: Seq<usize>, b: Seq<usize>) -> bool {
    let n = max_rank(a, b);
    forall|k: int|
        0 <= k < n ==> {
            let x = #[trigger] padded_dim(a, n, k);
            let y = padded_dim(b, n, k);
            x == y || x == 1 || y == 1
        }
}

/// The NumPy broadcast of two shapes.
pub open spec fn broadcast_shape(a: Seq<usize>, b: Seq<usize>) -> Seq<usize> {
    let n = max_rank(a, b);
    Seq::new(
        n as nat,
        |k: int|
            if padded_dim(a, n, k) == 1 {
                padded_dim(b, n, k)
            } else {
                padded_dim(a, n, k)
            },
    )
}

/// `s` right-aligned against `t` has, at each dimension, `t`'s extent or 1.
pub open spec fn expands_to(s: Seq<usize>, t: Seq<usize>) -> bool {
    &&& s.len() <= t.len()
    &&& forall|k: int|
        0 <= k < t.len() ==> #[trigger] padded_dim(s, t.len() as int, k) == t[k] || padded_dim(
            s,
            t.len() as int,
            k,
        ) == 1
}

/// Strides of `s` expanded to `t`: 0 on every dimension that is repeated.
pub open spec fn expanded_strides(s: Seq<usize>, st: Seq<usize>, t: Seq<usize>) -> Seq<usize> {
    let d = t.len() - s.len();
    Seq::new(
        t.len(),
        |k: int|
            if k < d {
                0usize
            } else if s[k - d] != t[k] {
                0usize
            } else {
                st[k - d]
            },
    )
}

/// Broadcast of two shapes, or `None` when they are not compatible.
pub fn broadcast_shapes(a: &Vec<usize>, b: &Vec<usize>) -> (r: Option<Vec<usize>>)
    ensures
        r is Some <==> broadcast_compatible(a@, b@),
        r is Some ==> r->0@ == broadcast_shape(a@, b@),
{
    let la = a.len();
    let lb = b.len();
    let n = if la >= lb { la } else { lb };
    let mut out: Vec<usize> = Vec::new();
    let mut k: usize = 0;
    while k < n
        invariant
            k <= n,
            n as int == max_rank(a@, b@),
            la == a@.len(),
            lb == b@.len(),
            out@.len() == k,
            forall|j: int| 0 <= j < k ==> out@[j] == broadcast_shape(a@, b@)[j],
            forall|j: int|
                0 <= j < k ==> {
                    let x = #[trigger] padded_dim(a@, n as int, j);
                    let y = padded_dim(b@, n as int, j);
                    x == y || x == 1 || y == 1
                },
        decreases n - k,
    {
        let x = if k < n - la { 1 } else { a[k - (n - la)] };
        let y = if k < n - lb { 1 } else { b[k - (n - lb)] };
        assert(x == padded_dim(a@, n as int, k as int));
        assert(y == padded_dim(b@, n as int, k as int));
        if x != y && x != 1 && y != 1 {
            return None;
        }
        if x == 1 {
            out.push(y);
        } else {
            out.push(x);
        }
        k = k + 1;
    }
    assert(out@ =~= broadcast_shape(a@, b@));
    Some(out)
}

/// A shape broadcasts with itself to itself.
pub proof fn lemma_broadcast_same(s: Seq<usize>)
    ensures
        broadcast_compatible(s, s),
        broadcast_shape(s, s) == s,
{
    let n = max_rank(s, s);
    assert forall|k: int| 0 <= k < n implies #[trigger] padded_dim(s, n, k) == s[k] by {}
    assert(broadcast_shape(s, s) =~= s);
}

/// Both shapes expand to their broadcast.
pub proof fn lemma_broadcast_expands(a: Seq<usize>, b: Seq<usize>)
    requires
        broadcast_compatible(a, b),
    ensures
        expands_to(a, broadcast_shape(a, b)),
        expands_to(b, broadcast_shape(a, b)),
{
    let t = broadcast_shape(a, b);
    let n = max_rank(a, b);
    assert forall|k: int| 0 <= k < t.len() implies #[trigger] padded_dim(a, t.len() as int, k)
        == t[k] || padded_dim(a, t.len() as int, k) == 1 by {
        assert(padded_dim(a, n, k) == padded_dim(a, t.len() as int, k));
    }
    assert forall|k: int| 0 <= k < t.len() implies #[trigger] padded_dim(b, t.len() as int, k)
        == t[k] || padded_dim(b, t.len() as int, k) == 1 by {
        assert(padded_dim(b, n, k) == padded_dim(b, t.len() as int, k));
    }
}

/// A shape has a positive size exactly when none of its dimensions is 0.
pub proof fn lemma_size_positive(s: Seq<usize>)
    ensures
        shape_size(s) > 0 <==> forall|k: int| 0 <= k < s.len() ==> #[trigger] s[k] > 0,
    decreases s.len(),
{
    if s.len() > 0 {
        lemma_size_positive(s.drop_last());
        let z = shape_size(s.drop_last());
        let l = s.last() as nat;
        assert(shape_size(s) == z * l);
        assert(z * l > 0 <==> (z > 0 && l > 0)) by (nonlinear_arith);
        if shape_size(s) > 0 {
            assert forall|k: int| 0 <= k < s.len() implies #[trigger] s[k] > 0 by {
                if k < s.len() - 1 {
                    assert(s.drop_last()[k] == s[k]);
                }
            }
        }
        if forall|k: int| 0 <= k < s.len() ==> #[trigger] s[k] > 0 {
            assert forall|k: int| 0 <= k < s.drop_last().len() implies #[trigger] s.drop_last()[k]
                > 0 by {
                assert(s.drop_last()[k] == s[k]);
            }
            assert(s[s.len() - 1] > 0);
        }
    }
}

/// Expanding a view repeats elements and reaches no further.
pub proof fn lemma_expanded_reach(s: Seq<usize>, st: Seq<usize>, t: Seq<usize>)
    requires
        s.len() == st.len(),
        expands_to(s, t),
        forall|k: int| 0 <= k < t.len() ==> #[trigger] t[k] > 0,
    ensures
        max_reach(t, expanded_strides(s, st, t)) == max_reach(s, st),
    decreases t.len(),
{
    if t.len() > 0 {
        let e = expanded_strides(s, st, t);
        let n = t.len() as int;
        let tp = t.drop_last();
        let sp = if s.len() == 0 {
            s
        } else {
            s.drop_last()
        };
        let stp = if s.len() == 0 {
            st
        } else {
            st.drop_last()
        };
        assert(expands_to(sp, tp)) by {
            assert forall|k: int| 0 <= k < tp.len() implies #[trigger] padded_dim(
                sp,
                tp.len() as int,
                k,
            ) == tp[k] || padded_dim(sp, tp.len() as int, k) == 1 by {
                assert(padded_dim(sp, tp.len() as int, k) == padded_dim(s, n, k));
            }
        }
        assert(e.drop_last() =~= expanded_strides(sp, stp, tp));
        lemma_expanded_reach(sp, stp, tp);
        assert(padded_dim(s, n, n - 1) == t[n - 1] || padded_dim(s, n, n - 1) == 1);
        if s.len() > 0 {
            let l = s.last();
            assert(l == padded_dim(s, n, n - 1));
            if l == 0 {
                assert(false);
            }
            if l != t.last() {
                assert(l == 1);
                let z = st.last() as nat;
                assert(((l - 1) as nat) * z == 0) by (nonlinear_arith)
                    requires
                        l == 1,
                ;
            }
        }
    }
}

/// The view of `l` expanded to shape `t`: repeated dimensions get stride 0.
pub fn expand_layout(l: &Layout, t: &Vec<usize>) -> (r: Layout)
    requires
        l.wf(),
        expands_to(l.shape@, t@),
        shape_fits(t@),
    ensures
        r.shape@ == t@,
        r.strides@ == expanded_strides(l.shape@, l.strides@, t@),
        r.offset == l.offset,
        r.wf(),
        forall|len: nat| l.fits_in(len) ==> r.fits_in(len),
{
    let n = t.len();
    let m = l.shape.len();
    let d = n - m;
    let mut strides: Vec<usize> = Vec::new();
    let mut k: usize = 0;
    while k < n
        invariant
            k <= n,
            n == t@.len(),
            m == l.shape@.len(),
            m == l.strides@.len(),
            d == n - m,
            strides@.len() == k,
            forall|j: int|
                0 <= j < k ==> strides@[j] == expanded_strides(l.shape@, l.strides@, t@)[j],
        decreases n - k,
    {
        if k < d {
            strides.push(0);
        } else if l.shape[k - d] != t[k] {
            strides.push(0);
        } else {
            strides.push(l.strides[k - d]);
        }
        k = k + 1;
    }
    let r = Layout { shape: t.clone(), strides, offset: l.offset };
    proof {
        assert(r.shape@ =~= t@);
        assert(r.strides@ =~= expanded_strides(l.shape@, l.strides@, t@));
        lemma_size_positive(t@);
        lemma_size_positive(l.shape@);
        if shape_size(t@) > 0 {
            assert forall|k: int| 0 <= k < m implies #[trigger] l.shape@[k] > 0 by {
                assert(padded_dim(l.shape@, n as int, k + d) == l.shape@[k]);
                assert(t@[k + d] > 0);
            }
            lemma_expanded_reach(l.shape@, l.strides@, t@);
        }
    }
    r
}

} // verus!
