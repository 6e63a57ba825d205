//! Request identifiers for correlating responses with requests.
//!
//! Identifiers are issued consecutively (modulo 2^32) from a seed, so no
//! identifier repeats until all 2^32 of them have been issued.

use vstd::prelude::*;

verus! {

/// How many distinct request identifiers there are.
pub const ID_SPACE: u64 = 0x1_0000_0000;

/// Issues the request identifiers of one session.
pub struct ReqIdGen {
    start: u32,
    count: u64,
}

impl ReqIdGen {
    /// The identifiers issued so far, in order.
    pub closed spec fn issued(&self) -> Seq<u32> {
        Seq::new(self.count as nat, |i: int| ((self.start as int + i) % (ID_SPACE as int)) as u32)
    }

    pub closed spec fn wf(&self) -> bool {
        self.count <= ID_SPACE
    }

    /// A generator whose first identifier is `seed`.
    pub fn new(seed: u32) -> (r: ReqIdGen)
        ensures
            r.wf(),
            r.issued() == Seq::<u32>::empty(),
    {
        let r = ReqIdGen { start: seed, count: 0 };
        proof {
            assert(r.issued() =~= Seq::<u32>::empty());
        }
        r
    }

    /// Whether an identifier not issued before is left.
    pub fn can_issue(&self) -> (r: bool)
        requires
            self.wf(),
        ensures
            r == (self.issued().len() < ID_SPACE),
    {
        self.count < ID_SPACE
    }

    /// Issues an identifier different from every one issued before.
    pub fn gen_req_id(&mut self) -> (r: u32)
        requires
            old(self).wf(),
            old(self).issued().len() < ID_SPACE,
        ensures
            final(self).wf(),
            !old(self).issued().contains(r),
            forall|i: int| 0 <= i < old(self).issued().len() ==> old(self).issued()[i] != r,
            final(self).issued() == old(self).issued().push(r),
    {
        let r = ((self.start as u64 + self.count) % ID_SPACE) as u32;
        let ghost s0 = self.issued();
        self.count = self.count + 1;
        proof {
            assert(self.issued() =~= s0.push(r));
            assert forall|i: int| 0 <= i < s0.len() implies s0[i] != r by {
                let a = self.start as int + i;
                let b = self.start as int + old(self).count as int;
                assert(0 <= a < b < a + (ID_SPACE as int));
                assert(a % (ID_SPACE as int) != b % (ID_SPACE as int));
            }
        }
        r
    }
}

/// Identifiers issued by one generator are pairwise distinct.
pub proof fn lemma_issued_distinct(g: &ReqIdGen)
    requires
        g.wf(),
    ensures
        g.issued().no_duplicates(),
{
    let s = g.issued();
    assert forall|i: int, j: int| 0 <= i < s.len() && 0 <= j < s.len() && i != j implies s[i]
        != s[j] by {
        let a = g.start as int + i;
        let b = g.start as int + j;
        assert(a % (ID_SPACE as int) != b % (ID_SPACE as int));
    }
}

} // verus!
