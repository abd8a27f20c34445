//! Randomized identifier generation.
//!
//! Quarantined files are stored under a fixed-length pseudo-random name so
//! that the stored name carries no directly reversible trace of the original
//! file. The character palette is supplied by the caller (in practice the
//! flagged file's composite tag); an empty palette is replaced by a fixed
//! alphanumeric fallback alphabet, so generation never has to sample from an
//! empty set.

use vstd::prelude::*;
use rand::Rng;

verus! {

/// The fallback alphabet used whenever the supplied palette is empty.
pub open spec fn fallback_palette() -> Seq<char> {
    "abcdefghijklmnopqrstuvwxyz0123456789"@
}

/// The palette actually sampled for a given caller-supplied palette: the
/// caller's own characters, or the fallback alphabet if there are none.
pub open spec fn palette_of(s: Seq<char>) -> Seq<char> {
    if s.len() == 0 {
        fallback_palette()
    } else {
        s
    }
}

/// Whatever palette a caller supplies, the palette actually sampled is
/// non-empty: the fallback alphabet replaces an empty one, so identifier
/// generation is total.
pub proof fn lemma_palette_nonempty(s: Seq<char>)
    ensures
        palette_of(s).len() > 0,
{
    reveal_strlit("abcdefghijklmnopqrstuvwxyz0123456789");
}

/// Relies on `rand::Rng::gen_range` over `0..bound`: returns a uniformly
/// sampled value of the non-empty range, so the result is below `bound`.
#[verifier::external_body]
fn random_index(bound: usize) -> (r: usize)
    requires
        bound > 0,
    ensures
        r < bound,
{
    rand::thread_rng().gen_range(0..bound)
}

/// Generates a pseudo-random identifier of exactly 16 characters, each drawn
/// (with replacement) from the supplied palette, or from the fallback
/// alphabet when the palette is empty.
pub fn generate_random_string(characters: &str) -> (r: String)
    ensures
        r@.len() == 16,
        forall|i: int| 0 <= i < 16 ==> palette_of(characters@).contains(#[trigger] r@[i]),
{
    let pal: &str = if characters.unicode_len() == 0 {
        "abcdefghijklmnopqrstuvwxyz0123456789"
    } else {
        characters
    };
    proof {
        lemma_palette_nonempty(characters@);
    }
    let plen = pal.unicode_len();
    let mut r = String::new();
    let mut k: usize = 0;
    while k < 16
        invariant
            k <= 16,
            r@.len() == k,
            pal@ == palette_of(characters@),
            plen == pal@.len(),
            plen > 0,
            forall|i: int| 0 <= i < k ==> palette_of(characters@).contains(#[trigger] r@[i]),
        decreases 16 - k,
    {
        let idx = random_index(plen);
        let c = pal.substring_char(idx, idx + 1);
        r.append(c);
        proof {
            assert(r@[k as int] == pal@[idx as int]);
            assert(pal@.contains(pal@[idx as int]));
        }
        k += 1;
    }
    r
}

} // verus!
