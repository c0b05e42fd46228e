//! Authentication: single-use pairing tokens that expire, and the fallback
//! password checked against its stored hash.

use vstd::prelude::*;
use argon2::password_hash::{PasswordHash, PasswordVerifier};
use crate::store::HostStore;
use crate::encoding::{hex_of, hex_text};

verus! {

/// A pairing token stays valid for this many seconds.
pub const TOKEN_EXPIRY_SECS: u64 = 300;

/// The user name that authenticates with a pairing token.
pub const PAIRING_USER: &'static str = "zedra-pair";

/// Whether the stored argon2 hash accepts the password; `None` when the hash
/// cannot be read.
pub uninterp spec fn argon2_verdict(hash: Seq<char>, password: Seq<char>) -> Option<bool>;

/// Relies on argon2's `PasswordHash::new`, which reads the stored hash
/// string, and `Argon2::verify_password`, which checks the password against
/// it; the outcome depends on the two texts alone.
#[verifier::external_body]
fn argon2_check(hash: &str, password: &str) -> (r: Result<bool, String>)
    ensures
        r matches Ok(b) ==> argon2_verdict(hash@, password@) == Some(b),
        r is Err ==> argon2_verdict(hash@, password@) is None,
{
    match PasswordHash::new(hash) {
        Ok(parsed) => Ok(argon2::Argon2::default().verify_password(password.as_bytes(), &parsed).is_ok()),
        Err(e) => Err(e.to_string()),
    }
}

/// Pairing tokens handed out and not yet used, with the second each was
/// created at.
pub struct PairingTokens {
    tokens: Vec<(String, u64)>,
}

/// A token created at `created` is still valid at `now`.
pub open spec fn fresh(now: u64) -> spec_fn((Seq<char>, u64)) -> bool {
    |t: (Seq<char>, u64)| t.1 > now || now - t.1 < TOKEN_EXPIRY_SECS
}

impl PairingTokens {
    /// The outstanding tokens and their creation times, oldest first.
    pub closed spec fn model(&self) -> Seq<(Seq<char>, u64)> {
        Seq::new(self.tokens@.len(), |i: int| (self.tokens@[i].0@, self.tokens@[i].1))
    }

    pub fn new() -> (r: PairingTokens)
        ensures
            r.model() == Seq::<(Seq<char>, u64)>::empty(),
    {
        let r = PairingTokens { tokens: Vec::new() };
        assert(r.model() =~= Seq::<(Seq<char>, u64)>::empty());
        r
    }

    /// Drops the tokens that expired by `now`.
    fn prune(&mut self, now: u64)
        ensures
            final(self).model() == old(self).model().filter(fresh(now)),
    {
        let ghost all = self.model();
        let mut rest: Vec<(String, u64)> = Vec::new();
        std::mem::swap(&mut rest, &mut self.tokens);
        let ghost mut i: int = 0;
        let ghost n = rest@.len() as int;
        while rest.len() > 0
            invariant
                0 <= i <= n,
                n == all.len(),
                rest@.len() == n - i,
                forall|k: int| 0 <= k < rest@.len() ==> (#[trigger] rest@[k]).0@ == all[i + k].0 && rest@[k].1 == all[i + k].1,
                self.model() == all.subrange(0, i).filter(fresh(now)),
            decreases rest@.len(),
        {
            let t = rest.remove(0);
            proof {
                let next = all.subrange(0, i + 1);
                assert(next.drop_last() =~= all.subrange(0, i));
                assert(next.last() == (t.0@, t.1));
                reveal(Seq::filter);
            }
            if t.1 > now || now - t.1 < TOKEN_EXPIRY_SECS {
                let ghost before = self.model();
                self.tokens.push(t);
                assert(self.model() =~= before.push((t.0@, t.1)));
            }
            proof {
                i = i + 1;
            }
        }
        assert(all.subrange(0, n) =~= all);
    }
}

/// Creates a pairing token from 32 random bytes: their hexadecimal text,
/// valid from `now` until it is used or expires.
pub fn create_pairing_token(tokens: &mut PairingTokens, random: &[u8; 32], now: u64) -> (r: String)
    ensures
        r@ == hex_of(random@),
        final(tokens).model() == old(tokens).model().filter(fresh(now)).push((r@, now)),
{
    let token = hex_text(random);
    tokens.prune(now);
    let ghost before = tokens.model();
    tokens.tokens.push((token.clone(), now));
    assert(tokens.model() =~= before.push((token@, now)));
    token
}

/// The index of the first entry holding `token`, if any.
pub open spec fn token_index(entries: Seq<(Seq<char>, u64)>, token: Seq<char>) -> Option<int> {
    if exists|i: int| 0 <= i < entries.len() && entries[i].0 == token {
        Some(choose|i: int| 0 <= i < entries.len() && entries[i].0 == token && forall|j: int| 0 <= j < i ==> entries[j].0 != token)
    } else {
        None
    }
}

/// Checks a pairing token and uses it up: true when it was handed out and
/// has not expired by `now`. Expired tokens are dropped on the way.
pub fn validate_pairing_token(tokens: &mut PairingTokens, token: &str, now: u64) -> (r: bool)
    ensures
        r == token_index(old(tokens).model().filter(fresh(now)), token@) is Some,
        match token_index(old(tokens).model().filter(fresh(now)), token@) {
            Some(i) => final(tokens).model() == old(tokens).model().filter(fresh(now)).remove(i),
            None => final(tokens).model() == old(tokens).model().filter(fresh(now)),
        },
{
    tokens.prune(now);
    let ghost kept = tokens.model();
    let key = token.to_owned();
    let mut i: usize = 0;
    while i < tokens.tokens.len()
        invariant
            i <= tokens.tokens@.len(),
            key@ == token@,
            tokens.model() == kept,
            kept == old(tokens).model().filter(fresh(now)),
            forall|j: int| 0 <= j < i ==> kept[j].0 != token@,
        decreases tokens.tokens@.len() - i,
    {
        if tokens.tokens[i].0 == key {
            proof {
                let k = choose|k: int| 0 <= k < kept.len() && kept[k].0 == token@ && forall|j: int| 0 <= j < k ==> kept[j].0 != token@;
                assert(kept[i as int].0 == token@);
                if k < i {
                } else if k > i {
                }
                assert(k == i);
            }
            tokens.tokens.remove(i);
            assert(tokens.model() =~= kept.remove(i as int));
            return true;
        }
        i = i + 1;
    }
    false
}

/// Checks the fallback password against the stored hash; no stored hash
/// accepts nothing.
pub fn verify_password(store: &HostStore, password: &str) -> (r: Result<bool, String>)
    ensures
        store.password_hash is None ==> r == Ok::<bool, String>(false),
        store.password_hash matches Some(h) ==> match argon2_verdict(h@, password@) {
            Some(b) => r == Ok::<bool, String>(b),
            None => r is Err,
        },
{
    match &store.password_hash {
        None => Ok(false),
        Some(h) => argon2_check(h.as_str(), password),
    }
}

/// Authenticates `username`: the pairing user with a pairing token, which
/// is used up; anyone else with the fallback password.
pub fn authenticate(
    tokens: &mut PairingTokens,
    store: &HostStore,
    username: &str,
    password: &str,
    now: u64,
) -> (r: Result<bool, String>)
    ensures
        username@ == PAIRING_USER@ ==> {
            &&& r == Ok::<bool, String>(token_index(old(tokens).model().filter(fresh(now)), password@) is Some)
            &&& match token_index(old(tokens).model().filter(fresh(now)), password@) {
                Some(i) => final(tokens).model() == old(tokens).model().filter(fresh(now)).remove(i),
                None => final(tokens).model() == old(tokens).model().filter(fresh(now)),
            }
        },
        username@ != PAIRING_USER@ ==> {
            &&& final(tokens).model() == old(tokens).model()
            &&& store.password_hash is None ==> r == Ok::<bool, String>(false)
            &&& store.password_hash matches Some(h) ==> match argon2_verdict(h@, password@) {
                Some(b) => r == Ok::<bool, String>(b),
                None => r is Err,
            }
        },
{
    if username.to_owned() == PAIRING_USER.to_owned() {
        Ok(validate_pairing_token(tokens, password, now))
    } else {
        verify_password(store, password)
    }
}

} // verus!
