//! Picking a word at random from the built-in list.
use vstd::prelude::*;
use rand::Rng;
use rand::rngs::ThreadRng;

verus! {

#[verifier::external_type_specification]
#[verifier::external_body]
pub struct ExThreadRng(ThreadRng);

/// Calls `rand::thread_rng`, the generator of the current thread. Nothing is
/// claimed of its state.
#[verifier::external_body]
fn thread_rng() -> ThreadRng {
    rand::thread_rng()
}

/// Calls `Rng::gen_range(0..upper)` on `rng`, which returns a number below
/// `upper` (the range is not empty). Which number depends on the generator's
/// state and is not stated.
#[verifier::external_body]
fn gen_index(rng: &mut ThreadRng, upper: usize) -> (r: usize)
    requires
        upper > 0,
    ensures
        r < upper,
{
    rng.gen_range(0..upper)
}

/// Number of built-in words.
pub const BUILTIN_COUNT: usize = 2;

/// The built-in word at `index`: `Apple`, then `Pineapple`.
pub fn builtin_word(index: usize) -> (r: String)
    requires
        index < BUILTIN_COUNT,
    ensures
        index == 0 ==> r@ == "Apple"@,
        index == 1 ==> r@ == "Pineapple"@,
{
    let v: Vec<&str> = vec!["Apple", "Pineapple"];
    v[index].to_owned()
}

/// One of the built-in words, drawn at random.
pub fn get_useable_word() -> (r: String)
    ensures
        r@ == "Apple"@ || r@ == "Pineapple"@,
{
    let mut rng = thread_rng();
    let index = gen_index(&mut rng, BUILTIN_COUNT);
    builtin_word(index)
}

/// One of the built-in words, drawn at random.
pub fn get_available_word() -> (r: String)
    ensures
        r@ == "Apple"@ || r@ == "Pineapple"@,
{
    let mut rng = thread_rng();
    let index = gen_index(&mut rng, BUILTIN_COUNT);
    builtin_word(index)
}

} // verus!
