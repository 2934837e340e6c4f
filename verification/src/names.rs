//! Names for new backing directories.

use crate::path::{join, join_paths, text_of};
use rand::Rng;
use vstd::prelude::*;

verus! {

/// The letters that a generated name is made of: `a` up to, but not
/// including, `z`.
pub open spec fn is_name_letter(c: char) -> bool {
    'a' <= c && c < 'z'
}

/// The shape of a generated name: between 1 and 31 letters.
pub open spec fn is_candidate(name: Seq<char>) -> bool {
    &&& 1 <= name.len() < 32
    &&& forall|i: int| 0 <= i < name.len() ==> is_name_letter(#[trigger] name[i])
}

/// Whether a name of the generated shape and of length `len` is among `taken`.
pub open spec fn crowded_at(taken: Seq<Seq<char>>, len: int) -> bool {
    exists|k: int| 0 <= k < taken.len() && is_candidate(#[trigger] taken[k]) && taken[k].len() == len
}

/// `rand::Rng::gen_range` on the generator of the current thread, with the
/// half-open range from `low` to `high`. The call panics on an empty range,
/// which the precondition leaves out; whatever is drawn lies in the range.
/// Nothing else is claimed of the character: two calls may differ.
#[verifier::external_body]
fn random_char(low: char, high: char) -> (c: char)
    requires
        low < high,
    ensures
        low <= c,
        c < high,
{
    rand::thread_rng().gen_range(low..high)
}

/// A random string of `size` letters.
pub fn rand_str(size: usize) -> (s: String)
    ensures
        s@.len() == size,
        forall|i: int| 0 <= i < size ==> is_name_letter(#[trigger] s@[i]),
{
    let mut letters: Vec<char> = Vec::new();
    let mut i: usize = 0;
    while i < size
        invariant
            i <= size,
            letters@.len() == i,
            forall|k: int| 0 <= k < i ==> is_name_letter(#[trigger] letters@[k]),
        decreases size - i,
    {
        let c = random_char('a', 'z');
        letters.push(c);
        i += 1;
    }
    text_of(&letters)
}

/// Whether `name` is among `taken`.
pub fn is_taken(name: &String, taken: &Vec<String>) -> (b: bool)
    ensures
        b == taken.deep_view().contains(name@),
{
    let mut i: usize = 0;
    while i < taken.len()
        invariant
            i <= taken.len(),
            forall|k: int| 0 <= k < i ==> taken.deep_view()[k] != name@,
        decreases taken.len() - i,
    {
        if taken[i] == *name {
            assert(taken.deep_view()[i as int] == name@);
            return true;
        }
        i += 1;
    }
    false
}

/// Looks for a name that is free under `dir`, given the names `taken`
/// there: for each length from 1 to 31, up to ten random names of that
/// length are tried, and the first that is not taken is returned, joined to
/// `dir`.
///
/// The path returned is never one of a taken name. `None` says that every
/// name tried was taken, which can only be when names of the generated
/// shape are taken at every length from 1 to 31: the caller must treat it as
/// fatal.
pub fn find_available_name(dir: &str, taken: &Vec<String>) -> (r: Option<String>)
    ensures
        match r {
            Some(path) => exists|name: Seq<char>|
                is_candidate(name) && !taken.deep_view().contains(name) && path@ == join_paths(
                    dir@,
                    name,
                ),
            None => forall|len: int| 1 <= len < 32 ==> #[trigger] crowded_at(taken.deep_view(), len),
        },
{
    let mut len: usize = 1;
    while len < 32
        invariant
            1 <= len <= 32,
            forall|l: int| 1 <= l < len ==> #[trigger] crowded_at(taken.deep_view(), l),
        decreases 32 - len,
    {
        let ghost mut witness: Option<Seq<char>> = None;
        let mut attempt: usize = 0;
        while attempt < 10
            invariant
                attempt <= 10,
                1 <= len < 32,
                attempt > 0 ==> witness is Some,
                witness matches Some(w) ==> is_candidate(w) && w.len() == len
                    && taken.deep_view().contains(w),
            decreases 10 - attempt,
        {
            let name = rand_str(len);
            if !is_taken(&name, taken) {
                let path = join(dir, name.as_str());
                assert(is_candidate(name@));
                return Some(path);
            }
            proof {
                witness = Some(name@);
            }
            attempt += 1;
        }
        proof {
            let w = witness->0;
            let k = choose|k: int| 0 <= k < taken.deep_view().len() && taken.deep_view()[k] == w;
            assert(is_candidate(taken.deep_view()[k]));
            assert(crowded_at(taken.deep_view(), len as int));
        }
        len += 1;
    }
    None
}

} // verus!
