//! Request bookkeeping of the rpc client built on the simulated network.
//!
//! A client sends each request with a fresh id and remembers who waits for
//! the response. A response completes the request with its id; a receive
//! error fails every request still waiting.
use vstd::prelude::*;
use crate::id::Id;

verus! {

/// The ids of the requests that wait for a response, in the order sent.
pub struct Responders {
    pub pending: Vec<Id>,
}

impl Responders {
    pub open spec fn wf(&self) -> bool {
        self.pending@.no_duplicates()
    }

    /// No request waits.
    pub fn new() -> (r: Self)
        ensures
            r.wf(),
            r.pending@.len() == 0,
    {
        Responders { pending: Vec::new() }
    }

    /// The request with this id waits for its response.
    pub fn is_pending(&self, id: Id) -> (b: bool)
        ensures
            b == self.pending@.contains(id),
    {
        let mut i: usize = 0;
        while i < self.pending.len()
            invariant
                i <= self.pending@.len(),
                forall|j: int| 0 <= j < i ==> #[trigger] self.pending@[j] != id,
            decreases self.pending@.len() - i,
        {
            if self.pending[i] == id {
                return true;
            }
            i = i + 1;
        }
        false
    }

    /// A request was sent: it waits for its response.
    pub fn register(&mut self, id: Id)
        requires
            old(self).wf(),
        ensures
            final(self).wf(),
            final(self).pending@.to_set() == old(self).pending@.to_set().insert(id),
            final(self).pending@ == if old(self).pending@.contains(id) {
                old(self).pending@
            } else {
                old(self).pending@.push(id)
            },
    {
        if !self.is_pending(id) {
            let ghost p0 = self.pending@;
            self.pending.push(id);
            proof {
                p0.lemma_push_to_set_commute(id);
                assert forall|i: int, j: int| 0 <= i < self.pending@.len() && 0 <= j < self.pending@.len() && i != j implies self.pending@[i]
                    != self.pending@[j] by {
                    if i < p0.len() && j < p0.len() {
                        assert(self.pending@[i] == p0[i] && self.pending@[j] == p0[j]);
                    } else if i < p0.len() {
                        assert(self.pending@[i] == p0[i]);
                    } else if j < p0.len() {
                        assert(self.pending@[j] == p0[j]);
                    }
                }
            }
        } else {
            proof {
                assert(self.pending@.to_set().insert(id) =~= self.pending@.to_set());
            }
        }
    }

    /// The response to a waiting request arrived: it no longer waits.
    pub fn complete(&mut self, id: Id)
        requires
            old(self).wf(),
            old(self).pending@.contains(id),
        ensures
            final(self).wf(),
            final(self).pending@.to_set() == old(self).pending@.to_set().remove(id),
            final(self).pending@ == old(self).pending@.remove(old(self).pending@.index_of(id)),
    {
        let mut i: usize = 0;
        while i < self.pending.len() && self.pending[i] != id
            invariant
                i <= self.pending@.len(),
                self.pending@.contains(id),
                forall|j: int| 0 <= j < i ==> #[trigger] self.pending@[j] != id,
            decreases self.pending@.len() - i,
        {
            i = i + 1;
        }
        proof {
            if i == self.pending@.len() {
                let j = self.pending@.index_of(id);
                assert(self.pending@[j] == id);
            }
        }
        let ghost p0 = self.pending@;
        proof {
            let j = p0.index_of(id);
            assert(p0[j] == id);
            assert(j == i as int) by {
                if j < i {
                    assert(p0[j] != id);
                } else if j > i {
                    assert(p0[i as int] == id);
                }
            }
        }
        let _ = self.pending.remove(i);
        proof {
            let p = self.pending@;
            assert forall|x: int| 0 <= x < p.len() implies #[trigger] p[x] == p0[if x < i { x } else { x + 1 }] by {}
            assert forall|a: int, b: int| 0 <= a < p.len() && 0 <= b < p.len() && a != b implies p[a] != p[b] by {
                let aa = if a < i { a } else { a + 1 };
                let bb = if b < i { b } else { b + 1 };
                assert(p[a] == p0[aa] && p[b] == p0[bb]);
            }
            assert forall|x: Id| p.to_set().contains(x) <==> p0.to_set().remove(id).contains(x) by {
                if p.contains(x) {
                    let k = p.index_of(x);
                    let kk = if k < i { k } else { k + 1 };
                    assert(p0[kk] == x);
                    assert(kk != i);
                }
                if p0.contains(x) && x != id {
                    let k = p0.index_of(x);
                    assert(k != i);
                    let kk = if k < i { k } else { k - 1 };
                    assert(p[kk] == x);
                }
            }
            assert(p.to_set() =~= p0.to_set().remove(id));
        }
    }

    /// Receiving failed: every waiting request fails. Returns their ids.
    pub fn fail_all(&mut self) -> (failed: Vec<Id>)
        requires
            old(self).wf(),
        ensures
            final(self).wf(),
            final(self).pending@.len() == 0,
            failed@ == old(self).pending@,
    {
        let mut failed: Vec<Id> = Vec::new();
        std::mem::swap(&mut failed, &mut self.pending);
        failed
    }
}

} // verus!
