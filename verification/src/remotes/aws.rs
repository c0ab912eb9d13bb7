//! The object-bucket destination's verified rules: key normalization and the
//! adapter's identity. The network client lives with the runtime; it hands
//! keys and bytes back and forth as plain values.

use vstd::prelude::*;

verus! {

/// Leading separators are stripped from object keys: buckets have no root.
pub open spec fn s3_key(remote: Seq<char>) -> Seq<char>
    decreases remote.len(),
{
    if remote.len() > 0 && remote[0] == '/' {
        s3_key(remote.skip(1))
    } else {
        remote
    }
}

/// Normalizes a remote path into an object key, as the bucket stores it.
pub fn s3_key_of(remote: &str) -> (r: String)
    ensures
        r@ == s3_key(remote@),
{
    let rc = crate::text::chars_of(remote);
    proof {
        assert(rc@.skip(0) =~= rc@);
    }
    let mut i: usize = 0;
    while i < rc.len() && rc[i] == '/'
        invariant
            i <= rc@.len(),
            s3_key(remote@) == s3_key(rc@.skip(i as int)),
            rc@ == remote@,
        decreases rc@.len() - i,
    {
        proof {
            assert(rc@.skip(i as int).skip(1) =~= rc@.skip(i + 1));
        }
        i = i + 1;
    }
    proof {
        let t = rc@.skip(i as int);
        if t.len() > 0 {
            assert(t[0] == rc@[i as int]);
        }
        assert(s3_key(t) == t);
    }
    let out = crate::paths::sub_chars(&rc, i, rc.len());
    proof {
        assert(rc@.subrange(i as int, rc@.len() as int) =~= rc@.skip(i as int));
    }
    crate::text::string_of(&out)
}

/// An object-bucket destination: the operator's name for it and the bucket
/// it addresses. The connected client lives beside it in the runtime.
pub struct AwsBucket {
    pub name: String,
    pub bucket_name: String,
}

impl AwsBucket {
    /// The symbolic name the operator gave this destination.
    pub fn name(&self) -> (r: String)
        ensures
            r@ == self.name@,
    {
        self.name.clone()
    }
}

} // verus!
