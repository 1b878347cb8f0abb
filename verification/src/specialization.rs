//! What a kernel is specialized on: by which powers of two its sizes, strides and addresses divide.
use vstd::arithmetic::power2;
use vstd::prelude::*;

verus! {

/// The largest divisor that is looked for.
pub const DEFAULT_MAX: i32 = 16;

/// A power of two that divides a number, and the largest one that was looked for.
#[derive(Clone, Copy, PartialEq, Eq, Structural, Debug, Hash)]
pub struct DivHint {
    pub divisor: i32,
    pub max: i32,
}

/// The largest power of two that divides a number and is no larger than a power of two; all of them
/// divide zero.
pub open spec fn two_part(value: nat, max: nat) -> nat
    decreases max,
{
    if max <= 1 || value % 2 != 0 {
        1
    } else {
        2 * two_part(value / 2, max / 2)
    }
}

/// The lesser of two numbers.
pub open spec fn lesser(a: i32, b: i32) -> i32 {
    if a <= b {
        a
    } else {
        b
    }
}

impl DivHint {
    /// The hint that says nothing.
    pub fn default_hint() -> (r: DivHint)
        ensures
            r.divisor == 1,
            r.max == DEFAULT_MAX,
    {
        DivHint { divisor: 1, max: DEFAULT_MAX }
    }

    /// The hint for an integer argument.
    pub fn from_value(value: i32) -> (r: DivHint)
        ensures
            r.divisor == two_part(magnitude(value as int), DEFAULT_MAX as nat),
            r.max == DEFAULT_MAX,
    {
        let size: u64 = if value >= 0 {
            value as u64
        } else {
            (-(value as i64)) as u64
        };
        DivHint::from_ptr(size)
    }

    /// The hint for an address.
    pub fn from_ptr(address: u64) -> (r: DivHint)
        ensures
            r.divisor == two_part(address as nat, DEFAULT_MAX as nat),
            r.max == DEFAULT_MAX,
    {
        let mut rest: u64 = address;
        let mut max: i32 = DEFAULT_MAX;
        let mut divisor: i32 = 1;
        while max > 1 && rest % 2 == 0
            invariant
                1 <= max <= 16,
                1 <= divisor,
                divisor * max <= 16,
                divisor * two_part(rest as nat, max as nat) == two_part(address as nat, 16),
            decreases max,
        {
            let ghost before = divisor as int;
            let ghost deeper = two_part((rest / 2) as nat, (max / 2) as nat) as int;
            assert(two_part(rest as nat, max as nat) == 2 * deeper);
            assert(before * (2 * deeper) == (2 * before) * deeper) by (nonlinear_arith);
            assert((2 * before) * (max / 2) <= before * max) by (nonlinear_arith)
                requires
                    max >= 2,
                    before >= 1,
            ;
            assert(before * 2 <= before * max) by (nonlinear_arith)
                requires
                    max >= 2,
                    before >= 1,
            ;
            divisor = divisor * 2;
            rest = rest / 2;
            max = max / 2;
        }
        assert(two_part(rest as nat, max as nat) == 1);
        assert(divisor * 1 == divisor);
        DivHint { divisor, max: DEFAULT_MAX }
    }

    /// The hint where no larger divisor is wanted.
    pub fn with_max(&self, max: i32) -> (r: DivHint)
        ensures
            r == capped(*self, max),
    {
        DivHint {
            divisor: if self.divisor <= max {
                self.divisor
            } else {
                max
            },
            max,
        }
    }

    /// The divisor that a kernel may rely on, where it says anything.
    pub fn assumed(&self) -> (r: Option<i32>)
        ensures
            r == assumption(*self),
    {
        let divisor = if self.divisor <= self.max {
            self.divisor
        } else {
            self.max
        };
        if divisor > 1 {
            Some(divisor)
        } else {
            None
        }
    }
}

/// A hint under a largest divisor.
pub open spec fn capped(hint: DivHint, max: i32) -> DivHint {
    DivHint { divisor: lesser(hint.divisor, max), max }
}

/// The divisor that a kernel may rely on; that one divides says nothing.
pub open spec fn assumption(hint: DivHint) -> Option<i32> {
    if lesser(hint.divisor, hint.max) > 1 {
        Some(lesser(hint.divisor, hint.max))
    } else {
        None
    }
}

/// The distance of a number from zero.
pub open spec fn magnitude(value: int) -> nat {
    if value >= 0 {
        value as nat
    } else {
        (-value) as nat
    }
}

/// What is claimed to divide a number divides it.
pub proof fn hint_divides(value: nat, max: nat)
    ensures
        two_part(value, max) >= 1,
        value % two_part(value, max) == 0,
    decreases max,
{
    if max > 1 && value % 2 == 0 {
        hint_divides(value / 2, max / 2);
        let d = two_part(value / 2, max / 2) as int;
        let half = (value / 2) as int;
        assert(half == d * (half / d)) by (nonlinear_arith)
            requires
                half % d == 0,
                d >= 1,
        ;
        assert((2 * half) % (2 * d) == 0) by (nonlinear_arith)
            requires
                half == d * (half / d),
                d >= 1,
        {
            assert(2 * half == (2 * d) * (half / d));
            vstd::arithmetic::div_mod::lemma_mod_multiples_basic(half / d, 2 * d);
            assert((half / d) * (2 * d) == (2 * d) * (half / d));
        }
        assert(value == 2 * half);
    }
}

/// No power of two under the largest divisor that divides a number is larger than the one claimed,
/// and the one claimed is under it.
pub proof fn hint_is_the_largest(value: nat, max: nat, k: nat)
    requires
        max >= 1,
    ensures
        two_part(value, max) <= max,
        power2::pow2(k) <= max && value % power2::pow2(k) == 0 ==> power2::pow2(k) <= two_part(
            value,
            max,
        ),
    decreases max,
{
    power2::lemma_pow2_pos(k);
    if max > 1 && value % 2 == 0 {
        if k == 0 {
            hint_is_the_largest(value / 2, max / 2, 0);
            hint_divides(value / 2, max / 2);
            power2::lemma2_to64();
        } else {
            let less = (k - 1) as nat;
            hint_is_the_largest(value / 2, max / 2, less);
            power2::lemma_pow2_pos(less);
            power2::lemma_pow2_unfold(k);
            let p = power2::pow2(less) as int;
            let v = value as int;
            if v % (2 * p) == 0 {
                assert((v / 2) % p == 0) by (nonlinear_arith)
                    requires
                        v % (2 * p) == 0,
                        p >= 1,
                        v >= 0,
                {
                    let q = v / (2 * p);
                    vstd::arithmetic::div_mod::lemma_fundamental_div_mod(v, 2 * p);
                    assert(v == (2 * p) * q);
                    assert(v / 2 == p * q);
                    vstd::arithmetic::div_mod::lemma_mod_multiples_basic(q, p);
                    assert(q * p == p * q);
                }
            }
        }
    } else if value % 2 != 0 && k > 0 {
        let less = (k - 1) as nat;
        power2::lemma_pow2_pos(less);
        power2::lemma_pow2_unfold(k);
        let p = power2::pow2(less) as int;
        let v = value as int;
        if v % (2 * p) == 0 {
            assert(v % 2 == 0) by (nonlinear_arith)
                requires
                    v % (2 * p) == 0,
                    p >= 1,
                    v >= 0,
            {
                let q = v / (2 * p);
                vstd::arithmetic::div_mod::lemma_fundamental_div_mod(v, 2 * p);
                assert(v == 2 * (p * q));
            }
        }
    } else if k == 0 {
        power2::lemma2_to64();
    }
}

/// A kernel may rely on the divisor of a hint, or on the largest that is wanted where that is less;
/// and on nothing where that is one or less.
pub proof fn assumed_divisor_is_in_both_bounds(hint: DivHint)
    ensures
        assumption(hint) matches Some(divisor) ==> divisor > 1 && divisor <= hint.divisor && divisor
            <= hint.max && (divisor == hint.divisor || divisor == hint.max),
        assumption(hint) is None <==> hint.divisor <= 1 || hint.max <= 1,
{
}

/// A cap never claims a larger divisor, and claims at most the cap.
pub proof fn cap_only_lowers(hint: DivHint, max: i32)
    ensures
        capped(hint, max).divisor <= hint.divisor,
        capped(hint, max).divisor <= max,
        hint.divisor <= max ==> capped(hint, max).divisor == hint.divisor,
        capped(capped(hint, max), max) == capped(hint, max),
{
}

/// What is known of a tensor that is passed to a kernel.
#[derive(Clone, Debug)]
pub struct SpecializationBits {
    pub shape_div: Vec<DivHint>,
    pub stride_div: Vec<DivHint>,
    pub stride_one: Vec<bool>,
    pub base_ptr_div: DivHint,
    pub elements_disjoint: bool,
}

/// [`SpecializationBits`] as plain values.
pub struct SpecView {
    pub shape_div: Seq<DivHint>,
    pub stride_div: Seq<DivHint>,
    pub stride_one: Seq<bool>,
    pub base_ptr_div: DivHint,
    pub elements_disjoint: bool,
}

impl View for SpecializationBits {
    type V = SpecView;

    open spec fn view(&self) -> SpecView {
        SpecView {
            shape_div: self.shape_div@,
            stride_div: self.stride_div@,
            stride_one: self.stride_one@,
            base_ptr_div: self.base_ptr_div,
            elements_disjoint: self.elements_disjoint,
        }
    }
}

fn hints_eq(a: &Vec<DivHint>, b: &Vec<DivHint>) -> (r: bool)
    ensures
        r == (a@ == b@),
{
    if a.len() != b.len() {
        return false;
    }
    let mut i: usize = 0;
    while i < a.len()
        invariant
            i <= a@.len(),
            a@.len() == b@.len(),
            forall|k: int| 0 <= k < i ==> a@[k] == b@[k],
        decreases a@.len() - i,
    {
        if a[i] != b[i] {
            return false;
        }
        i += 1;
    }
    assert(a@ =~= b@);
    true
}

fn flags_eq(a: &Vec<bool>, b: &Vec<bool>) -> (r: bool)
    ensures
        r == (a@ == b@),
{
    if a.len() != b.len() {
        return false;
    }
    let mut i: usize = 0;
    while i < a.len()
        invariant
            i <= a@.len(),
            a@.len() == b@.len(),
            forall|k: int| 0 <= k < i ==> a@[k] == b@[k],
        decreases a@.len() - i,
    {
        if a[i] != b[i] {
            return false;
        }
        i += 1;
    }
    assert(a@ =~= b@);
    true
}

impl SpecializationBits {
    pub fn same_as(&self, other: &SpecializationBits) -> (r: bool)
        ensures
            r == (self@ == other@),
    {
        hints_eq(&self.shape_div, &other.shape_div) && hints_eq(&self.stride_div, &other.stride_div)
            && flags_eq(&self.stride_one, &other.stride_one) && self.base_ptr_div
            == other.base_ptr_div && self.elements_disjoint == other.elements_disjoint
    }
}

/// What compiled kernels are told apart by: the kernel, and what it is specialized on.
#[derive(Debug)]
pub struct TileFunctionKey {
    pub module: String,
    pub function: String,
    pub spec_args: Vec<(String, SpecializationBits)>,
    pub scalar_hints: Vec<(String, DivHint)>,
}

/// [`TileFunctionKey`] as plain values.
pub struct KeyView {
    pub module: Seq<char>,
    pub function: Seq<char>,
    pub spec_args: Seq<(Seq<char>, SpecView)>,
    pub scalar_hints: Seq<(Seq<char>, DivHint)>,
}

impl View for TileFunctionKey {
    type V = KeyView;

    open spec fn view(&self) -> KeyView {
        KeyView {
            module: self.module@,
            function: self.function@,
            spec_args: self.spec_args@.map_values(
                |arg: (String, SpecializationBits)| (arg.0@, arg.1@),
            ),
            scalar_hints: self.scalar_hints@.map_values(|arg: (String, DivHint)| (arg.0@, arg.1)),
        }
    }
}

impl TileFunctionKey {
    /// A key of which only the kernel is known.
    pub fn builder(module: &str, function: &str) -> (r: TileFunctionKey)
        ensures
            r@ == (KeyView {
                module: module@,
                function: function@,
                spec_args: Seq::empty(),
                scalar_hints: Seq::empty(),
            }),
    {
        let key = TileFunctionKey {
            module: module.to_owned(),
            function: function.to_owned(),
            spec_args: Vec::new(),
            scalar_hints: Vec::new(),
        };
        assert(key@.spec_args =~= Seq::empty());
        assert(key@.scalar_hints =~= Seq::empty());
        key
    }

    /// The key with the tensors' specialization set.
    pub fn spec_args(self, spec_args: Vec<(String, SpecializationBits)>) -> (r: TileFunctionKey)
        ensures
            r@ == (KeyView {
                spec_args: spec_args@.map_values(
                    |arg: (String, SpecializationBits)| (arg.0@, arg.1@),
                ),
                ..self@
            }),
    {
        TileFunctionKey {
            module: self.module,
            function: self.function,
            spec_args,
            scalar_hints: self.scalar_hints,
        }
    }

    /// The key with the hints on scalars set.
    pub fn scalar_hints(self, scalar_hints: Vec<(String, DivHint)>) -> (r: TileFunctionKey)
        ensures
            r@ == (KeyView {
                scalar_hints: scalar_hints@.map_values(|arg: (String, DivHint)| (arg.0@, arg.1)),
                ..self@
            }),
    {
        TileFunctionKey {
            module: self.module,
            function: self.function,
            spec_args: self.spec_args,
            scalar_hints,
        }
    }

    pub fn build(self) -> (r: TileFunctionKey)
        ensures
            r == self,
    {
        self
    }

    /// Whether one compiled kernel does for both keys: they are equal in every part.
    pub fn same_as(&self, other: &TileFunctionKey) -> (r: bool)
        ensures
            r == (self@ == other@),
    {
        if self.module != other.module || self.function != other.function || self.spec_args.len()
            != other.spec_args.len() || self.scalar_hints.len() != other.scalar_hints.len() {
            assert(self@.spec_args.len() == self.spec_args@.len());
            assert(other@.spec_args.len() == other.spec_args@.len());
            assert(self@.scalar_hints.len() == self.scalar_hints@.len());
            assert(other@.scalar_hints.len() == other.scalar_hints@.len());
            return false;
        }
        let mut i: usize = 0;
        while i < self.spec_args.len()
            invariant
                i <= self.spec_args@.len(),
                self.spec_args@.len() == other.spec_args@.len(),
                forall|k: int|
                    0 <= k < i ==> #[trigger] self@.spec_args[k] == other@.spec_args[k],
            decreases self.spec_args@.len() - i,
        {
            let same = self.spec_args[i].0 == other.spec_args[i].0 && self.spec_args[i].1.same_as(
                &other.spec_args[i].1,
            );
            assert(same == (self@.spec_args[i as int] == other@.spec_args[i as int]));
            if !same {
                return false;
            }
            i += 1;
        }
        let mut i: usize = 0;
        while i < self.scalar_hints.len()
            invariant
                i <= self.scalar_hints@.len(),
                self.scalar_hints@.len() == other.scalar_hints@.len(),
                forall|k: int|
                    0 <= k < i ==> #[trigger] self@.scalar_hints[k] == other@.scalar_hints[k],
            decreases self.scalar_hints@.len() - i,
        {
            let same = self.scalar_hints[i].0 == other.scalar_hints[i].0
                && self.scalar_hints[i].1 == other.scalar_hints[i].1;
            assert(same == (self@.scalar_hints[i as int] == other@.scalar_hints[i as int]));
            if !same {
                return false;
            }
            i += 1;
        }
        assert(self@.spec_args =~= other@.spec_args);
        assert(self@.scalar_hints =~= other@.scalar_hints);
        true
    }
}

impl PartialEq for TileFunctionKey {
    fn eq(&self, other: &TileFunctionKey) -> (r: bool) {
        self.same_as(other)
    }
}

impl vstd::std_specs::cmp::PartialEqSpecImpl for TileFunctionKey {
    open spec fn obeys_eq_spec() -> bool {
        true
    }

    open spec fn eq_spec(&self, other: &TileFunctionKey) -> bool {
        self@ == other@
    }
}

} // verus!
