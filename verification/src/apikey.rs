//! Purpose-scoped credentials and the forward-only rotation pool.

use vstd::prelude::*;

use crate::CoreError;

verus! {

/// The operation a credential may authenticate.
#[derive(Debug, Clone, Copy, PartialEq, Eq, Structural)]
pub enum ApiKeyFor {
    Email,
    Leads,
    Both,
}

impl ApiKeyFor {
    /// The wire form of the scope tag.
    pub open spec fn spec_str(self) -> Seq<char> {
        match self {
            ApiKeyFor::Email => "email"@,
            ApiKeyFor::Leads => "leads"@,
            ApiKeyFor::Both => "both"@,
        }
    }

    pub fn to_str(&self) -> (r: String)
        ensures
            r@ == self.spec_str(),
    {
        match self {
            ApiKeyFor::Email => "email".to_owned(),
            ApiKeyFor::Leads => "leads".to_owned(),
            ApiKeyFor::Both => "both".to_owned(),
        }
    }

    /// Decoding of a wire tag; an unrecognized value is rejected rather than
    /// silently mapped to a default.
    pub open spec fn spec_from(s: Seq<char>) -> Option<ApiKeyFor> {
        if s == "email"@ {
            Some(ApiKeyFor::Email)
        } else if s == "leads"@ {
            Some(ApiKeyFor::Leads)
        } else if s == "both"@ {
            Some(ApiKeyFor::Both)
        } else {
            None
        }
    }

    pub fn from_str(text: &str) -> (r: Option<ApiKeyFor>)
        ensures
            r == ApiKeyFor::spec_from(text@),
    {
        if crate::strutil::str_eq(text, "email") {
            Some(ApiKeyFor::Email)
        } else if crate::strutil::str_eq(text, "leads") {
            Some(ApiKeyFor::Leads)
        } else if crate::strutil::str_eq(text, "both") {
            Some(ApiKeyFor::Both)
        } else {
            None
        }
    }

    /// Whether a credential of this scope may serve the given purpose: the
    /// scopes match, or the credential is valid for both purposes.
    pub open spec fn spec_serves(self, purpose: ApiKeyFor) -> bool {
        self == purpose || self == ApiKeyFor::Both
    }

    pub fn serves(&self, purpose: &ApiKeyFor) -> (r: bool)
        ensures
            r == self.spec_serves(*purpose),
    {
        match (self, purpose) {
            (ApiKeyFor::Both, _) => true,
            (ApiKeyFor::Email, ApiKeyFor::Email) => true,
            (ApiKeyFor::Leads, ApiKeyFor::Leads) => true,
            (ApiKeyFor::Email, _) => false,
            (ApiKeyFor::Leads, _) => false,
        }
    }
}

/// The round trip of the scope encoding: every scope decodes back from its
/// own wire form.
pub proof fn lemma_scope_encoding_round_trip(k: ApiKeyFor)
    ensures
        ApiKeyFor::spec_from(k.spec_str()) == Some(k),
{
    reveal_strlit("email");
    reveal_strlit("leads");
    reveal_strlit("both");
    match k {
        ApiKeyFor::Email => {
        },
        ApiKeyFor::Leads => {
            assert("leads"@[0] == 'l' && "email"@[0] == 'e');
        },
        ApiKeyFor::Both => {
            assert("both"@.len() == 4 && "email"@.len() == 5 && "leads"@.len() == 5);
        },
    }
}

/// A single credential with the purpose it is scoped to. Immutable once
/// created.
#[derive(Debug)]
pub struct ApiKey {
    pub key: String,
    pub purpose: ApiKeyFor,
}

impl Clone for ApiKey {
    fn clone(&self) -> (r: Self)
        ensures
            r == *self,
    {
        ApiKey { key: self.key.clone(), purpose: self.purpose }
    }
}

impl crate::db::Tablular for ApiKey {
    fn headers() -> Vec<&'static str> {
        let mut v: Vec<&'static str> = Vec::new();
        v.push("key");
        v.push("purpose");
        v
    }

    fn row(&self) -> Vec<String> {
        let mut v: Vec<String> = Vec::new();
        v.push(self.key.clone());
        v.push(self.purpose.to_str());
        v
    }
}

/// An ordered pool of credentials with a forward-only active index. Once the
/// index reaches the last credential, further rotation fails permanently.
#[derive(Debug)]
pub struct ApiKeyRotation {
    pub active_index: usize,
    pub keys: Vec<ApiKey>,
}

impl ApiKeyRotation {
    /// The active index never runs past the credentials; an empty pool keeps
    /// the index at its start.
    pub open spec fn wf(self) -> bool {
        if self.keys.len() == 0 {
            self.active_index == 0
        } else {
            self.active_index < self.keys.len()
        }
    }

    /// Whether one more rotation can succeed.
    pub open spec fn spec_can_rotate(self) -> bool {
        self.active_index + 1 < self.keys.len()
    }

    /// The pool after one successful rotation.
    pub open spec fn spec_rotated(self) -> ApiKeyRotation {
        ApiKeyRotation { active_index: (self.active_index + 1) as usize, keys: self.keys }
    }

    /// The pool after `k` successful rotations.
    pub open spec fn spec_rotated_times(self, k: nat) -> ApiKeyRotation
        decreases k,
    {
        if k == 0 {
            self
        } else {
            self.spec_rotated_times((k - 1) as nat).spec_rotated()
        }
    }

    /// A fresh pool over the given credentials, starting at the first.
    pub fn new(keys: Vec<ApiKey>) -> (r: ApiKeyRotation)
        ensures
            r.wf(),
            r.active_index == 0,
            r.keys == keys,
    {
        ApiKeyRotation { active_index: 0, keys }
    }

    /// The credentials of `keys` that may serve `purpose`, in order.
    pub fn for_purpose(keys: &Vec<ApiKey>, purpose: &ApiKeyFor) -> (r: Vec<ApiKey>)
        ensures
            r@ == keys@.filter(|k: ApiKey| k.purpose.spec_serves(*purpose)),
    {
        let mut out: Vec<ApiKey> = Vec::new();
        let mut i: usize = 0;
        while i < keys.len()
            invariant
                i <= keys.len(),
                out@ == keys@.take(i as int).filter(|k: ApiKey| k.purpose.spec_serves(*purpose)),
            decreases keys.len() - i,
        {
            proof {
                reveal(Seq::filter);
                assert(keys@.take(i + 1).drop_last() == keys@.take(i as int));
                assert(keys@.take(i + 1).last() == keys@[i as int]);
            }
            if keys[i].purpose.serves(purpose) {
                out.push(keys[i].clone());
            }
            i += 1;
        }
        proof {
            assert(keys@.take(keys@.len() as int) == keys@);
        }
        out
    }

    /// The active credential; fails only when the pool was constructed empty.
    pub fn get(&self) -> (r: Result<ApiKey, CoreError>)
        requires
            self.wf(),
        ensures
            self.keys.len() == 0 ==> r == Err::<ApiKey, CoreError>(CoreError::NoCredentialsAvailable),
            self.keys.len() > 0 ==> r == Ok::<ApiKey, CoreError>(self.keys[self.active_index as int]),
    {
        if self.keys.len() == 0 {
            Err(CoreError::NoCredentialsAvailable)
        } else {
            Ok(self.keys[self.active_index].clone())
        }
    }

    /// Advances to the next credential. Fails with `PoolExhausted` when the
    /// pool is already at its last credential (or empty); the advancement is
    /// one-directional and permanent for the life of the pool.
    pub fn rotate(&mut self) -> (r: Result<ApiKey, CoreError>)
        requires
            old(self).wf(),
        ensures
            final(self).wf(),
            final(self).keys == old(self).keys,
            old(self).spec_can_rotate() ==> {
                &&& *final(self) == old(self).spec_rotated()
                &&& r == Ok::<ApiKey, CoreError>(old(self).keys[old(self).active_index + 1])
            },
            !old(self).spec_can_rotate() ==> {
                &&& *final(self) == *old(self)
                &&& r == Err::<ApiKey, CoreError>(CoreError::PoolExhausted)
            },
    {
        if self.active_index + 1 < self.keys.len() {
            self.active_index += 1;
            Ok(self.keys[self.active_index].clone())
        } else {
            Err(CoreError::PoolExhausted)
        }
    }
}

/// Rotation exhaustion: from a fresh pool of `n` credentials, the first
/// `n - 1` rotations each succeed and land on the next credential in
/// construction order (so the active credential after `k` rotations is the
/// `k + 1`-th), and the rotation attempted at the last credential fails.
pub proof fn lemma_rotation_exhaustion(p: ApiKeyRotation, k: nat)
    requires
        p.wf(),
        p.active_index == 0,
        1 <= p.keys.len(),
        k < p.keys.len(),
    ensures
        p.spec_rotated_times(k).active_index == k,
        p.spec_rotated_times(k).keys == p.keys,
        p.spec_rotated_times(k).wf(),
        k + 1 < p.keys.len() ==> p.spec_rotated_times(k).spec_can_rotate(),
        k + 1 == p.keys.len() ==> !p.spec_rotated_times(k).spec_can_rotate(),
    decreases k,
{
    if k > 0 {
        lemma_rotation_exhaustion(p, (k - 1) as nat);
    }
}

} // verus!
