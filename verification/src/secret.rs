//! The key that signs session cookies.

use vstd::prelude::*;

verus! {

/// Length in bytes of the cookie signing key.
pub const KEY_LEN: usize = 64;

/// The signing key to use, and whether it must be written to the key file.
pub struct SecretKey {
    pub key: Vec<u8>,
    pub persist: bool,
}

/// The key chosen from the key file's bytes (`None` when the file cannot be
/// read) and a freshly drawn key: the stored bytes when there are exactly
/// 64 of them, otherwise the fresh key, which must then be persisted.
pub open spec fn chosen_key(stored: Option<Seq<u8>>, fresh: Seq<u8>) -> (Seq<u8>, bool) {
    match stored {
        Some(b) => if b.len() == KEY_LEN { (b, false) } else { (fresh, true) },
        None => (fresh, true),
    }
}

/// Chooses the signing key from the key file's bytes and a fresh key.
pub fn secret_key_with(stored: Option<&[u8]>, fresh: &[u8]) -> (r: SecretKey)
    requires
        fresh@.len() == KEY_LEN,
    ensures
        (r.key@, r.persist) == chosen_key(match stored { Some(b) => Some(b@), None => None }, fresh@),
        r.key@.len() == KEY_LEN,
{
    match stored {
        Some(b) => {
            if b.len() == KEY_LEN {
                SecretKey { key: vstd::slice::slice_to_vec(b), persist: false }
            } else {
                SecretKey { key: vstd::slice::slice_to_vec(fresh), persist: true }
            }
        },
        None => SecretKey { key: vstd::slice::slice_to_vec(fresh), persist: true },
    }
}

/// `rand::random::<[u8; 64]>()`. Trusted: 64 bytes come back. Not stated:
/// which bytes; they are drawn at random.
#[verifier::external_body]
fn random_key() -> (r: Vec<u8>)
    ensures
        r@.len() == KEY_LEN,
{
    rand::random::<[u8; 64]>().to_vec()
}

/// Chooses the signing key from the key file's bytes, drawing a random key
/// when the stored bytes are not a key.
pub fn secret_key_from(stored: Option<&[u8]>) -> (r: SecretKey)
    ensures
        r.key@.len() == KEY_LEN,
        stored matches Some(b) ==> (b@.len() == KEY_LEN ==> r.key@ == b@ && !r.persist),
        !(stored matches Some(b) && b@.len() == KEY_LEN) ==> r.persist,
{
    let needs_fresh = match stored {
        Some(b) => b.len() != KEY_LEN,
        None => true,
    };
    if needs_fresh {
        let fresh = random_key();
        secret_key_with(stored, &fresh)
    } else {
        match stored {
            Some(b) => SecretKey { key: vstd::slice::slice_to_vec(b), persist: false },
            None => SecretKey { key: Vec::new(), persist: true },
        }
    }
}

/// A key that was persisted, read back from the key file, is used as it is
/// and not persisted again.
pub proof fn lemma_persisted_key_reloads(stored: Option<Seq<u8>>, fresh: Seq<u8>, next_fresh: Seq<u8>)
    requires
        fresh.len() == KEY_LEN,
    ensures
        chosen_key(Some(chosen_key(stored, fresh).0), next_fresh) == (chosen_key(stored, fresh).0, false),
{
}

} // verus!
