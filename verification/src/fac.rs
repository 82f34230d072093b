//! A WebAssembly test module that computes factorials: five
//! exported functions of type `i64 -> i64` that compute the factorial with
//! 64-bit wrapping arithmetic, recursively (`fac-rec`, `fac-rec-named`),
//! with a counting-down loop (`fac-iter`, `fac-iter-named`), and with a
//! loop that stops at 2 (`fac-opt`), together with the test actions that
//! invoke each export on 25.

use vstd::prelude::*;
use vstd::arithmetic::div_mod::{lemma_mod_multiples_vanish, lemma_mul_mod_noop_right};

verus! {

/// 2 to the 64.
pub open spec fn word() -> int {
    0x1_0000_0000_0000_0000
}

/// `x` reduced to a signed 64-bit value, as wrapping arithmetic does.
pub open spec fn wrap64(x: int) -> int {
    let r = x % word();
    if r > i64::MAX {
        r - word()
    } else {
        r
    }
}

/// The product `lo * (lo + 1) * ... * hi` (1 when `lo > hi`).
pub open spec fn product(lo: int, hi: int) -> int
    decreases hi - lo + 1,
{
    if lo > hi {
        1
    } else {
        lo * product(lo + 1, hi)
    }
}

/// `n!`
pub open spec fn factorial(n: int) -> int {
    product(1, n)
}

/// `n!` in 64-bit wrapping arithmetic.
pub open spec fn wrapped_factorial(n: int) -> int {
    wrap64(factorial(n))
}

/// The product can be peeled off at its upper end.
proof fn lemma_product_top(lo: int, hi: int)
    requires
        lo <= hi,
    ensures
        product(lo, hi) == product(lo, hi - 1) * hi,
    decreases hi - lo,
{
    if lo < hi {
        lemma_product_top(lo + 1, hi);
        let p = product(lo + 1, hi - 1);
        assert(product(lo, hi) == lo * product(lo + 1, hi));
        assert(product(lo + 1, hi) == p * hi);
        assert(product(lo, hi - 1) == lo * p);
        assert(lo * (p * hi) == (lo * p) * hi) by (nonlinear_arith);
    } else {
        assert(product(lo, hi) == lo * product(lo + 1, hi));
        assert(product(lo + 1, hi) == 1);
        assert(product(lo, hi - 1) == 1);
    }
}

/// Wrapping depends only on the value modulo 2 to the 64.
proof fn lemma_wrap_mul(a: int, b: int)
    ensures
        wrap64(a * wrap64(b)) == wrap64(a * b),
{
    let m = word();
    lemma_mul_mod_noop_right(a, b, m);
    let r = b % m;
    if r > i64::MAX {
        assert(a * (r - m) == m * (-a) + a * r) by (nonlinear_arith);
        lemma_mod_multiples_vanish(-a, a * r, m);
    }
}

/// What `i64::wrapping_mul` computes, as an integer.
proof fn lemma_wrapping_mul(a: i64, b: i64)
    ensures
        vstd::wrapping::i64_specs::wrapping_mul(a, b) as int == wrap64(a * b),
{
}

/// Wrapping keeps a value that already fits.
proof fn lemma_wrap_small(x: int)
    requires
        i64::MIN <= x <= i64::MAX,
    ensures
        wrap64(x) == x,
{
}

/// The recursive factorial (`fac-rec`, `fac-rec-named`).
pub fn fac_rec(n: i64) -> (r: i64)
    requires
        n >= 0,
    ensures
        r as int == wrapped_factorial(n as int),
    decreases n,
{
    if n == 0 {
        proof {
            reveal_with_fuel(product, 2);
        }
        1
    } else {
        let rest = fac_rec(n - 1);
        proof {
            lemma_wrapping_mul(n, rest);
            lemma_wrap_mul(n as int, factorial(n - 1));
            lemma_product_top(1, n as int);
        }
        n.wrapping_mul(rest)
    }
}

/// The counting-down loop (`fac-iter`, `fac-iter-named`): multiplies the
/// running result by the counter until the counter reaches 0.
pub fn fac_iter(n: i64) -> (r: i64)
    requires
        n >= 0,
    ensures
        r as int == wrapped_factorial(n as int),
{
    let mut i: i64 = n;
    let mut res: i64 = 1;
    proof {
        lemma_wrap_small(1);
    }
    while i != 0
        invariant
            0 <= i <= n,
            res as int == wrap64(product(i + 1, n as int)),
        decreases i,
    {
        proof {
            lemma_wrapping_mul(i, res);
            lemma_wrap_mul(i as int, product(i + 1, n as int));
        }
        res = i.wrapping_mul(res);
        i = i - 1;
    }
    res
}

/// The loop that stops at 2 (`fac-opt`): 1 for arguments below 2,
/// otherwise the product of the argument down to 2.
pub fn fac_opt(n: i64) -> (r: i64)
    ensures
        r as int == (if n < 2 {
            1
        } else {
            wrapped_factorial(n as int)
        }),
{
    let mut res: i64 = 1;
    if n < 2 {
        return res;
    }
    let mut k: i64 = n;
    proof {
        lemma_wrap_small(1);
    }
    while k > 1
        invariant
            2 <= n,
            1 <= k <= n,
            res as int == wrap64(product(k + 1, n as int)),
        decreases k,
    {
        proof {
            lemma_wrapping_mul(res, k);
            lemma_wrap_mul(k as int, product(k + 1, n as int));
            assert(res * k == k * res) by (nonlinear_arith);
        }
        res = res.wrapping_mul(k);
        k = k - 1;
    }
    proof {
        assert(product(1, n as int) == 1 * product(2, n as int));
    }
    res
}

/// For every argument that is not negative, all five functions of the
/// module return the same value.
pub proof fn law_exports_agree(i: usize, j: usize, n: i64)
    requires
        i <= 4,
        j <= 4,
        n >= 0,
    ensures
        function_result(i, n) == function_result(j, n),
{
    reveal_with_fuel(product, 3);
    if n < 2 {
        lemma_wrap_small(1);
    }
}

/// The names the module exports, each with the index of its function.
pub open spec fn fac_exports() -> Seq<(Seq<char>, usize)> {
    seq![
        ("fac-rec"@, 0usize),
        ("fac-rec-named"@, 1usize),
        ("fac-iter"@, 2usize),
        ("fac-iter-named"@, 3usize),
        ("fac-opt"@, 4usize),
    ]
}

/// What function `index` of the module returns for `arg`.
pub open spec fn function_result(index: usize, arg: i64) -> int {
    if index <= 3 {
        wrapped_factorial(arg as int)
    } else if arg < 2 {
        1
    } else {
        wrapped_factorial(arg as int)
    }
}

/// An instance of the factorial module.
pub struct FacModule {
    exports: Vec<(String, usize)>,
}

impl FacModule {
    /// An instance always exports the module's five functions.
    #[verifier::type_invariant]
    spec fn exports_fixed(self) -> bool {
        self@ == fac_exports()
    }
}

impl View for FacModule {
    type V = Seq<(Seq<char>, usize)>;

    closed spec fn view(&self) -> Seq<(Seq<char>, usize)> {
        self.exports@.map_values(|e: (String, usize)| (e.0@, e.1))
    }
}

/// The index of the first export named `name`.
pub open spec fn export_lookup(exports: Seq<(Seq<char>, usize)>, name: Seq<char>) -> Option<usize>
    decreases exports.len(),
{
    if exports.len() == 0 {
        None
    } else if exports[0].0 == name {
        Some(exports[0].1)
    } else {
        export_lookup(exports.drop_first(), name)
    }
}

/// Instantiates the factorial module.
pub fn create_module_1() -> (m: FacModule)
    ensures
        m@ == fac_exports(),
{
    let mut exports: Vec<(String, usize)> = Vec::new();
    exports.push((String::from_str("fac-rec"), 0));
    exports.push((String::from_str("fac-rec-named"), 1));
    exports.push((String::from_str("fac-iter"), 2));
    exports.push((String::from_str("fac-iter-named"), 3));
    exports.push((String::from_str("fac-opt"), 4));
    assert(exports@.map_values(|e: (String, usize)| (e.0@, e.1)) =~= fac_exports());
    FacModule { exports }
}

/// Runs the module's start function. The factorial module declares none,
/// so starting it runs nothing.
pub fn start_module_1(module: &FacModule) {
}

impl FacModule {
    /// The function index of the export named `name`.
    pub fn export_index(&self, name: &str) -> (r: Option<usize>)
        ensures
            r == export_lookup(self@, name@),
    {
        let mut i: usize = 0;
        assert(self@.skip(0) == self@);
        while i < self.exports.len()
            invariant
                i <= self.exports.len(),
                self@.len() == self.exports.len(),
                export_lookup(self@, name@) == export_lookup(self@.skip(i as int), name@),
            decreases self.exports.len() - i,
        {
            assert(self@.skip(i as int)[0] == self@[i as int]);
            if crate::text::str_eq(self.exports[i].0.as_str(), name) {
                return Some(self.exports[i].1);
            }
            assert(self@.skip(i as int).drop_first() == self@.skip(i + 1));
            i = i + 1;
        }
        None
    }

    /// Calls function `index` of the module with `arg`. For a negative
    /// argument the recursive functions never return, and the counting-down
    /// functions only return after about 2 to the 64 steps, so those four
    /// are only called with arguments that are not negative.
    pub fn call(&self, index: usize, arg: i64) -> (r: i64)
        requires
            index <= 4,
            index <= 3 ==> arg >= 0,
        ensures
            r as int == function_result(index, arg),
    {
        if index <= 1 {
            fac_rec(arg)
        } else if index <= 3 {
            fac_iter(arg)
        } else {
            fac_opt(arg)
        }
    }

    /// Invokes the export named `name` with `arg`; `None` when the module
    /// exports no function of that name.
    pub fn invoke(&self, name: &str, arg: i64) -> (r: Option<i64>)
        requires
            (export_lookup(fac_exports(), name@) matches Some(i) && i <= 3) ==> arg >= 0,
        ensures
            self@ == fac_exports(),
            match export_lookup(self@, name@) {
                Some(index) => r == Some(function_result(index, arg) as i64),
                None => r is None,
            },
    {
        proof {
            use_type_invariant(self);
            reveal_with_fuel(export_lookup, 6);
        }
        match self.export_index(name) {
            Some(index) => {
                let v = self.call(index, arg);
                Some(v)
            },
            None => None,
        }
    }
}

/// 25! in 64-bit wrapping arithmetic.
proof fn lemma_fac_25()
    ensures
        wrapped_factorial(25) == 7034535277573963776,
{
    assert(product(26, 25) == 1);
    assert(product(25, 25) == 25);
    assert(product(24, 25) == 600);
    assert(product(23, 25) == 13800);
    assert(product(22, 25) == 303600);
    assert(product(21, 25) == 6375600);
    assert(product(20, 25) == 127512000);
    assert(product(19, 25) == 2422728000);
    assert(product(18, 25) == 43609104000);
    assert(product(17, 25) == 741354768000);
    assert(product(16, 25) == 11861676288000);
    assert(product(15, 25) == 177925144320000);
    assert(product(14, 25) == 2490952020480000);
    assert(product(13, 25) == 32382376266240000);
    assert(product(12, 25) == 388588515194880000);
    assert(product(11, 25) == 4274473667143680000);
    assert(product(10, 25) == 42744736671436800000);
    assert(product(9, 25) == 384702630042931200000);
    assert(product(8, 25) == 3077621040343449600000);
    assert(product(7, 25) == 21543347282404147200000);
    assert(product(6, 25) == 129260083694424883200000);
    assert(product(5, 25) == 646300418472124416000000);
    assert(product(4, 25) == 2585201673888497664000000);
    assert(product(3, 25) == 7755605021665492992000000);
    assert(product(2, 25) == 15511210043330985984000000);
    assert(product(1, 25) == 15511210043330985984000000);
    assert(15511210043330985984000000int % word() == 7034535277573963776);
}

/// Invokes `name` on 25 in the instance made by `create_module_1`.
fn invoke_on_25(module: &FacModule, name: &str) -> (r: i64)
    requires
        export_lookup(fac_exports(), name@) is Some,
    ensures
        r == 7034535277573963776,
{
    proof {
        lemma_fac_25();
    }
    match module.invoke(name, 25) {
        Some(v) => v,
        None => 0,
    }
}

/// Invokes `fac-rec` on 25.
pub fn c1_l84_action_invoke(module: &FacModule) -> (r: i64)
    ensures
        r == 7034535277573963776,
{
    proof {
        reveal_strlit("fac-rec");
        reveal_with_fuel(export_lookup, 2);
    }
    invoke_on_25(module, "fac-rec")
}

/// Invokes `fac-iter` on 25.
pub fn c2_l85_action_invoke(module: &FacModule) -> (r: i64)
    ensures
        r == 7034535277573963776,
{
    proof {
        reveal_strlit("fac-rec");
        reveal_strlit("fac-rec-named");
        reveal_strlit("fac-iter");
        reveal_with_fuel(export_lookup, 4);
    }
    invoke_on_25(module, "fac-iter")
}

/// Invokes `fac-rec-named` on 25.
pub fn c3_l86_action_invoke(module: &FacModule) -> (r: i64)
    ensures
        r == 7034535277573963776,
{
    proof {
        reveal_strlit("fac-rec");
        reveal_strlit("fac-rec-named");
        reveal_with_fuel(export_lookup, 3);
    }
    invoke_on_25(module, "fac-rec-named")
}

/// Invokes `fac-iter-named` on 25.
pub fn c4_l87_action_invoke(module: &FacModule) -> (r: i64)
    ensures
        r == 7034535277573963776,
{
    proof {
        reveal_strlit("fac-rec");
        reveal_strlit("fac-rec-named");
        reveal_strlit("fac-iter");
        reveal_strlit("fac-iter-named");
        reveal_with_fuel(export_lookup, 5);
    }
    invoke_on_25(module, "fac-iter-named")
}

/// Invokes `fac-opt` on 25.
pub fn c5_l88_action_invoke(module: &FacModule) -> (r: i64)
    ensures
        r == 7034535277573963776,
{
    proof {
        reveal_strlit("fac-rec");
        reveal_strlit("fac-rec-named");
        reveal_strlit("fac-iter");
        reveal_strlit("fac-iter-named");
        reveal_strlit("fac-opt");
        reveal_with_fuel(export_lookup, 6);
    }
    invoke_on_25(module, "fac-opt")
}

} // verus!
