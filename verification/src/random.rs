//! Random bytes and random strings, from the thread's random number
//! generator.
use vstd::prelude::*;
use vstd::string::*;

verus! {

/// `rand::random::<u8>()`. Nothing is claimed of the result: it is random.
#[verifier::external_body]
fn random_byte() -> u8 {
    rand::random::<u8>()
}

/// `rand::random_range(0..n)`: claims that the index is below `n`, as its
/// documentation says (it panics on an empty range, which `requires`
/// leaves out).
#[verifier::external_body]
fn random_index(n: usize) -> (r: usize)
    requires
        n > 0,
    ensures
        r < n,
{
    rand::random_range(0..n)
}

/// Fills `bytes` with random bytes.
pub fn random_bytes(bytes: &mut [u8])
    ensures
        final(bytes)@.len() == old(bytes)@.len(),
{
    let n = bytes.len();
    let mut i: usize = 0;
    while i < n
        invariant
            n == bytes@.len(),
            n == old(bytes)@.len(),
            i <= n,
        decreases n - i,
    {
        bytes[i] = random_byte();
        i += 1;
    }
}

/// The concatenation of the pieces chosen by `choice`.
pub open spec fn concat_choice(pieces: Seq<Seq<char>>, choice: Seq<int>) -> Seq<char>
    decreases choice.len(),
{
    if choice.len() == 0 {
        Seq::empty()
    } else {
        concat_choice(pieces, choice.drop_last()) + pieces[choice.last()]
    }
}

/// A string made of `len` pieces, each chosen at random; `None` when there
/// are no pieces to choose from.
pub fn random_string(pieces: &[&str], len: usize) -> (r: Option<String>)
    ensures
        r is None <==> pieces@.len() == 0,
        r matches Some(s) ==> exists|choice: Seq<int>|
            choice.len() == len && (forall|k: int| 0 <= k < len ==> 0 <= #[trigger] choice[k] < pieces@.len())
                && s@ == concat_choice(pieces@.map_values(|p: &str| p@), choice),
{
    if pieces.len() == 0 {
        return None;
    }
    let ghost pv = pieces@.map_values(|p: &str| p@);
    let mut s = String::new();
    let ghost mut choice: Seq<int> = Seq::empty();
    let mut i: usize = 0;
    while i < len
        invariant
            i <= len,
            pieces@.len() > 0,
            pv == pieces@.map_values(|p: &str| p@),
            choice.len() == i,
            forall|k: int| 0 <= k < i ==> 0 <= #[trigger] choice[k] < pieces@.len(),
            s@ == concat_choice(pv, choice),
        decreases len - i,
    {
        let k = random_index(pieces.len());
        s.append(pieces[k]);
        proof {
            let c2 = choice.push(k as int);
            assert(c2.drop_last() =~= choice);
            choice = c2;
        }
        i += 1;
    }
    Some(s)
}

} // verus!
