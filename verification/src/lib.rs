pub mod bits;
pub mod commit;
pub mod consts;
pub mod domains;
pub mod engine;
pub mod field;
pub mod gates;
pub mod generators;
pub mod proofdata;
pub mod registry;
pub mod schema;
pub mod tree;
pub mod value;

use vstd::prelude::*;

verus! {

/// Compares a string with a string slice (typically a literal), by view.
pub fn string_eq_lit(s: &String, lit: &str) -> (r: bool)
    ensures
        r == (s@ == lit@),
{
    let l: String = lit.to_owned();
    *s == l
}

/// Hands out a string slice that lives for the rest of the process.
/// Relies on `Box::leak` of std, which never frees the allocation.
#[verifier::external_body]
pub fn string_to_static_str(s: &String) -> (r: &'static str)
    ensures
        r@ == s@,
{
    Box::leak(s.clone().into_boxed_str())
}


/// Builds a length-`LEN` list whose entry `i` is the closure's result on
/// `i`. The seed value only fills entries until the closure overwrites
/// them, so every entry of the result comes from the closure.
pub fn gen_const_array_with_default<Output: Copy, const LEN: usize>(
    _default_value: Output,
    closure: impl Fn(usize) -> Output,
) -> (r: Vec<Output>)
    requires
        forall|i: usize| i < LEN ==> call_requires(closure, (i,)),
    ensures
        r@.len() == LEN,
        forall|i: int| 0 <= i < LEN ==> call_ensures(closure, (i as usize,), #[trigger] r@[i]),
{
    let mut out: Vec<Output> = Vec::new();
    let mut i: usize = 0;
    while i < LEN
        invariant
            i <= LEN,
            out@.len() == i,
            forall|j: usize| j < LEN ==> call_requires(closure, (j,)),
            forall|j: int| 0 <= j < i ==> call_ensures(closure, (j as usize,), #[trigger] out@[j]),
        decreases LEN - i,
    {
        out.push(closure(i));
        i = i + 1;
    }
    out
}

/// As `gen_const_array_with_default`, seeded by the type's default.
pub fn gen_const_array<Output: Copy + Default, const LEN: usize>(
    closure: impl Fn(usize) -> Output,
) -> (r: Vec<Output>)
    requires
        forall|i: usize| i < LEN ==> call_requires(closure, (i,)),
    ensures
        r@.len() == LEN,
        forall|i: int| 0 <= i < LEN ==> call_ensures(closure, (i as usize,), #[trigger] r@[i]),
{
    gen_const_array_with_default::<Output, LEN>(Output::default(), closure)
}

} // verus!
