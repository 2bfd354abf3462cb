use vstd::prelude::*;

verus! {

/// The characters of `s`, in order.
pub fn chars_of(s: &str) -> (v: Vec<char>)
    ensures
        v@ == s@,
{
    let mut v: Vec<char> = Vec::new();
    for c in it: s.chars()
        invariant
            v@ == it.seq().take(it.index() as int),
            it.seq() == s@,
    {
        v.push(c);
    }
    v
}

/// What `str::to_uppercase` returns for a string (Unicode upper case).
pub uninterp spec fn spec_uppercase(s: Seq<char>) -> Seq<char>;

/// Calls `str::to_uppercase`; its result is named `spec_uppercase` of the
/// input's characters. Nothing more is claimed of Unicode case mapping.
#[verifier::external_body]
pub(crate) fn uppercase(s: &str) -> (r: String)
    ensures
        r@ == spec_uppercase(s@),
{
    s.to_uppercase()
}

/// What `str::to_lowercase` returns for a string (Unicode lower case).
pub uninterp spec fn spec_lowercase(s: Seq<char>) -> Seq<char>;

/// Calls `str::to_lowercase`; its result is named `spec_lowercase` of the
/// input's characters. Nothing more is claimed of Unicode case mapping.
#[verifier::external_body]
pub(crate) fn lowercase(s: &str) -> (r: String)
    ensures
        r@ == spec_lowercase(s@),
{
    s.to_lowercase()
}

/// Calls `String::from_iter` on the characters of `v`: the string made of
/// those characters, in order.
#[verifier::external_body]
pub(crate) fn string_from_chars(v: &Vec<char>) -> (r: String)
    ensures
        r@ == v@,
{
    String::from_iter(v.iter())
}

/// Whether `w` is one of the words of `list`.
pub fn contains_word(list: &Vec<String>, w: &String) -> (r: bool)
    ensures
        r == list@.map_values(|x: String| x@).contains(w@),
{
    let ghost views = list@.map_values(|x: String| x@);
    let mut i: usize = 0;
    while i < list.len()
        invariant
            i <= list.len(),
            views == list@.map_values(|x: String| x@),
            forall|j: int| 0 <= j < i ==> views[j] != w@,
        decreases list.len() - i,
    {
        if list[i] == *w {
            assert(views[i as int] == w@);
            return true;
        }
        i = i + 1;
    }
    false
}

} // verus!
