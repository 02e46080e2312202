//! Cache keys and random identifiers.

use vstd::prelude::*;

verus! {

/// `0` to `9`, `a` to `z`, `A` to `Z`.
pub open spec fn is_alphanumeric(c: char) -> bool {
    let u = c as u32;
    0x30 <= u <= 0x39 || 0x41 <= u <= 0x5a || 0x61 <= u <= 0x7a
}

/// Text of `count` characters, each alphanumeric.
pub open spec fn is_random_id(text: Seq<char>, count: nat) -> bool {
    text.len() == count && forall|i: int| 0 <= i < text.len() ==> is_alphanumeric(text[i])
}

/// Draws `count` samples of `rand::distributions::Alphanumeric` from
/// `rand::thread_rng` and collects them into a string. Each sample is one of
/// the 62 ASCII letters and digits; which ones come is up to the generator.
#[verifier::external_body]
fn sample_alphanumeric(count: usize) -> (text: String)
    ensures
        is_random_id(text@, count as nat),
{
    rand::Rng::sample_iter(rand::thread_rng(), &rand::distributions::Alphanumeric)
        .take(count)
        .map(char::from)
        .collect()
}

/// The cache key for the client with the given id.
pub fn cache_entry_client(id: &str) -> (key: String)
    ensures
        key@ == "client_"@ + id@,
{
    let mut key = "client_".to_owned();
    key.append(id);
    key
}

/// An alphanumeric random string of the requested length.
pub fn get_rand(count: usize) -> (text: String)
    ensures
        is_random_id(text@, count as nat),
{
    sample_alphanumeric(count)
}

/// A fresh identifier for a stored entry: 24 random alphanumeric characters.
pub fn new_store_id() -> (id: String)
    ensures
        is_random_id(id@, 24),
{
    get_rand(24)
}

} // verus!
