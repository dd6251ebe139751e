use vstd::prelude::*;

verus! {

/// Largest raw component of a bounded vector, `i32::MAX - 1`.
pub const MAX_VEC_COMPONENT: i32 = 0x7fff_fffe;

/// Bounded raw two-dimensional vector used by geometry.
///
/// Differences of world coordinates produce this type. Each component is
/// within `±(i32::MAX - 1)`, so dot and cross products fit in `i64`.
#[derive(Debug, Clone, Copy, PartialEq, Eq, Hash, Default, Structural)]
pub struct RawVec2 {
    pub(crate) x: i32,
    pub(crate) y: i32,
}

impl View for RawVec2 {
    type V = (i32, i32);

    closed spec fn view(&self) -> (i32, i32) {
        (self.x, self.y)
    }
}

/// `a · b` over raw components.
pub open spec fn dot_spec(a: (i32, i32), b: (i32, i32)) -> int {
    a.0 as int * b.0 as int + a.1 as int * b.1 as int
}

/// `a × b` (z component) over raw components.
pub open spec fn cross_spec(a: (i32, i32), b: (i32, i32)) -> int {
    a.0 as int * b.1 as int - a.1 as int * b.0 as int
}

/// Both components are within the bounded vector range.
pub open spec fn vec_in_range(x: int, y: int) -> bool {
    -MAX_VEC_COMPONENT <= x <= MAX_VEC_COMPONENT && -MAX_VEC_COMPONENT <= y <= MAX_VEC_COMPONENT
}

pub proof fn lemma_products_fit(a: (i32, i32), b: (i32, i32))
    requires
        vec_in_range(a.0 as int, a.1 as int),
        vec_in_range(b.0 as int, b.1 as int),
    ensures
        -0x7fff_fffe * 0x7fff_fffe <= a.0 as int * b.0 as int <= 0x7fff_fffe * 0x7fff_fffe,
        -0x7fff_fffe * 0x7fff_fffe <= a.1 as int * b.1 as int <= 0x7fff_fffe * 0x7fff_fffe,
        -0x7fff_fffe * 0x7fff_fffe <= a.0 as int * b.1 as int <= 0x7fff_fffe * 0x7fff_fffe,
        -0x7fff_fffe * 0x7fff_fffe <= a.1 as int * b.0 as int <= 0x7fff_fffe * 0x7fff_fffe,
        -2 * 0x7fff_fffe * 0x7fff_fffe <= dot_spec(a, b) <= 2 * 0x7fff_fffe * 0x7fff_fffe,
        -2 * 0x7fff_fffe * 0x7fff_fffe <= cross_spec(a, b) <= 2 * 0x7fff_fffe * 0x7fff_fffe,
        0 <= dot_spec(a, a),
{
    assert(-0x7fff_fffe * 0x7fff_fffe <= a.0 as int * b.0 as int <= 0x7fff_fffe * 0x7fff_fffe) by (nonlinear_arith)
        requires -0x7fff_fffe <= a.0 <= 0x7fff_fffe, -0x7fff_fffe <= b.0 <= 0x7fff_fffe;
    assert(-0x7fff_fffe * 0x7fff_fffe <= a.1 as int * b.1 as int <= 0x7fff_fffe * 0x7fff_fffe) by (nonlinear_arith)
        requires -0x7fff_fffe <= a.1 <= 0x7fff_fffe, -0x7fff_fffe <= b.1 <= 0x7fff_fffe;
    assert(-0x7fff_fffe * 0x7fff_fffe <= a.0 as int * b.1 as int <= 0x7fff_fffe * 0x7fff_fffe) by (nonlinear_arith)
        requires -0x7fff_fffe <= a.0 <= 0x7fff_fffe, -0x7fff_fffe <= b.1 <= 0x7fff_fffe;
    assert(-0x7fff_fffe * 0x7fff_fffe <= a.1 as int * b.0 as int <= 0x7fff_fffe * 0x7fff_fffe) by (nonlinear_arith)
        requires -0x7fff_fffe <= a.1 <= 0x7fff_fffe, -0x7fff_fffe <= b.0 <= 0x7fff_fffe;
    assert(0 <= a.0 as int * a.0 as int + a.1 as int * a.1 as int) by (nonlinear_arith);
}

impl RawVec2 {
    /// The vector with the given components (truncated to `i32`).
    pub closed spec fn spec_new(x: int, y: int) -> Self {
        Self { x: x as i32, y: y as i32 }
    }

    pub proof fn lemma_spec_new(x: int, y: int)
        ensures
            Self::spec_new(x, y)@ == (x as i32, y as i32),
    {
    }

    /// Vectors with equal components are equal.
    pub proof fn lemma_view_eq(a: Self, b: Self)
        requires
            a@ == b@,
        ensures
            a == b,
    {
    }

    pub fn zero() -> (r: Self)
        ensures
            r@ == (0i32, 0i32),
    {
        Self { x: 0, y: 0 }
    }

    pub const MAX_COMPONENT: i32 = MAX_VEC_COMPONENT;

    #[verifier::type_invariant]
    closed spec fn in_range(self) -> bool {
        vec_in_range(self.x as int, self.y as int)
    }

    /// Creates a vector whose bounded range the caller has established.
    #[inline(always)]
    pub fn from_i32(x: i32, y: i32) -> (v: Self)
        requires
            vec_in_range(x as int, y as int),
        ensures
            v@ == (x, y),
    {
        Self { x, y }
    }

    #[inline(always)]
    pub fn raw(self) -> (r: [i32; 2])
        ensures
            r[0] == self@.0,
            r[1] == self@.1,
            vec_in_range(r[0] as int, r[1] as int),
    {
        proof {
            use_type_invariant(&self);
        }
        [self.x, self.y]
    }


    #[inline(always)]
    pub fn dot(self, other: Self) -> (d: i64)
        ensures
            d as int == dot_spec(self@, other@),
    {
        proof {
            use_type_invariant(&self);
            use_type_invariant(&other);
            lemma_products_fit(self@, other@);
        }
        self.x as i64 * other.x as i64 + self.y as i64 * other.y as i64
    }

    #[inline(always)]
    pub fn cross(self, other: Self) -> (c: i64)
        ensures
            c as int == cross_spec(self@, other@),
    {
        proof {
            use_type_invariant(&self);
            use_type_invariant(&other);
            lemma_products_fit(self@, other@);
        }
        self.x as i64 * other.y as i64 - self.y as i64 * other.x as i64
    }

    #[inline(always)]
    pub fn squared_magnitude(self) -> (m: u64)
        ensures
            m as int == dot_spec(self@, self@),
    {
        proof {
            use_type_invariant(&self);
            lemma_products_fit(self@, self@);
        }
        self.dot(self) as u64
    }
}

} // verus!
