//! Intrusive doubly-linked lists over a pool of embedded nodes.
//!
//! Linkage lives inside the payloads: every payload that participates in a
//! list carries an `IntrusiveNode`, and the pool of nodes is indexed by the
//! payload's own index, so no per-element allocation is ever needed and a
//! payload may take part in several unrelated lists through several nodes.
//! A list itself stores only head, tail and length; its abstract value is
//! the sequence of member indices from front to back.
//!
//! The well-formedness predicate `wf` ties the list to its node pool: the
//! members are distinct valid indices, head and tail agree with the ends,
//! and every member's `prev`/`next` point at its neighbours.  Every
//! operation preserves it and touches no node outside the members involved,
//! so several lists can share one pool as long as no index is in two lists.

use vstd::prelude::*;
use vstd::set_lib::{lemma_len_subset, lemma_int_range, set_int_range};

verus! {

/// Intrusive list node: the two optional neighbour indices, embedded in a
/// payload.  A node is unlinked when both are absent; the sole element of a
/// list also has both absent, so `is_linked` is a hint, not an invariant.
#[derive(Clone, Copy)]
pub struct IntrusiveNode {
    pub next: Option<usize>,
    pub prev: Option<usize>,
}

impl IntrusiveNode {
    /// Create a new unlinked node
    pub fn new() -> (r: IntrusiveNode)
        ensures
            r.next is None && r.prev is None,
    {
        IntrusiveNode { next: None, prev: None }
    }

    /// Check if this node is visibly linked in a list (the sole element of
    /// a list carries no neighbour and is not distinguished from unlinked).
    pub fn is_linked(&self) -> (r: bool)
        ensures
            r == (self.next is Some || self.prev is Some),
    {
        self.next.is_some() || self.prev.is_some()
    }

    /// Reset the node to the unlinked state.
    pub fn reset(&mut self)
        ensures
            final(self).next is None && final(self).prev is None,
    {
        self.next = None;
        self.prev = None;
    }
}

/// A sequence of distinct indices below `n` has at most `n` elements.
pub proof fn lemma_distinct_indices_bounded(s: Seq<usize>, n: nat)
    requires
        s.no_duplicates(),
        forall|i: int| 0 <= i < s.len() ==> (#[trigger] s[i]) < n,
    ensures
        s.len() <= n,
{
    let t = s.map_values(|x: usize| x as int);
    assert(t.no_duplicates());
    t.unique_seq_to_set();
    assert(t.to_set().subset_of(set_int_range(0, n as int))) by {
        assert forall|x: int| t.to_set().contains(x) implies set_int_range(0, n as int).contains(
            x,
        ) by {
            let i = choose|i: int| 0 <= i < t.len() && t[i] == x;
            assert(s[i] < n);
        }
    }
    lemma_int_range(0, n as int);
    lemma_len_subset(t.to_set(), set_int_range(0, n as int));
}

/// Intrusive doubly-linked list: head, tail and length over a shared node
/// pool.  The abstract value is the member sequence, front to back.
pub struct IntrusiveList {
    head: Option<usize>,
    tail: Option<usize>,
    len: usize,
    elems: Ghost<Seq<usize>>,
}

impl IntrusiveList {
    /// The members, front to back.
    pub closed spec fn view(&self) -> Seq<usize> {
        self.elems@
    }

    /// The list's internal consistency, apart from any node pool: the
    /// stored length counts the members, the members are distinct, and
    /// head and tail are the ends.
    pub closed spec fn shape_ok(&self) -> bool {
        let s = self@;
        &&& self.len == s.len()
        &&& s.no_duplicates()
        &&& (if s.len() == 0 {
            self.head is None && self.tail is None
        } else {
            self.head == Some(s[0]) && self.tail == Some(s[s.len() - 1])
        })
    }

    /// Full well-formedness over the node pool `nodes`: the shape holds,
    /// members are valid indices, and each member's node points at its
    /// neighbours.
    pub closed spec fn wf(&self, nodes: Seq<IntrusiveNode>) -> bool {
        let s = self@;
        &&& self.shape_ok()
        &&& forall|i: int| 0 <= i < s.len() ==> (#[trigger] s[i]) < nodes.len()
        &&& forall|i: int|
            0 <= i < s.len() ==> (#[trigger] nodes[s[i] as int]).prev == (if i == 0 {
                Option::<usize>::None
            } else {
                Some(s[i - 1])
            })
        &&& forall|i: int|
            0 <= i < s.len() ==> (#[trigger] nodes[s[i] as int]).next == (if i == s.len() - 1 {
                Option::<usize>::None
            } else {
                Some(s[i + 1])
            })
    }

    /// Create a new empty list
    pub fn new() -> (r: IntrusiveList)
        ensures
            r@ == Seq::<usize>::empty(),
            forall|nodes: Seq<IntrusiveNode>| r.wf(nodes),
    {
        IntrusiveList { head: None, tail: None, len: 0, elems: Ghost(Seq::empty()) }
    }

    /// Check if the list is empty
    pub fn is_empty(&self) -> (r: bool)
        requires
            self.shape_ok(),
        ensures
            r == (self@.len() == 0),
    {
        self.head.is_none()
    }

    /// Get the number of elements in the list
    pub fn len(&self) -> (r: usize)
        requires
            self.shape_ok(),
        ensures
            r == self@.len(),
    {
        self.len
    }

    /// Get the front element without removing it
    pub fn front(&self) -> (r: Option<usize>)
        requires
            self.shape_ok(),
        ensures
            r == (if self@.len() == 0 {
                Option::<usize>::None
            } else {
                Some(self@[0])
            }),
    {
        self.head
    }

    /// Get the back element without removing it
    pub fn back(&self) -> (r: Option<usize>)
        requires
            self.shape_ok(),
        ensures
            r == (if self@.len() == 0 {
                Option::<usize>::None
            } else {
                Some(self@[self@.len() - 1])
            }),
    {
        self.tail
    }

    /// Push an element to the front of the list.
    ///
    /// The pool is written only at `item` and at the old head.
    pub fn push_front(&mut self, nodes: &mut Vec<IntrusiveNode>, item: usize)
        requires
            old(self).wf(old(nodes)@),
            item < old(nodes).len(),
            !old(self)@.contains(item),
        ensures
            final(self).wf(final(nodes)@),
            final(self)@ == seq![item] + old(self)@,
            final(nodes)@.len() == old(nodes)@.len(),
            forall|j: int|
                0 <= j < old(nodes)@.len() && j != item && (old(self)@.len() == 0 || j != old(
                    self,
                )@[0]) ==> final(nodes)@[j] == old(nodes)@[j],
    {
        let ghost s = old(self)@;
        proof {
            lemma_distinct_indices_bounded(s.push(item), old(nodes)@.len());
            assert(s.push(item).no_duplicates());
        }
        let old_head = self.head;
        nodes.set(item, IntrusiveNode { next: old_head, prev: None });
        match old_head {
            Some(h) => {
                proof {
                    assert(s[0] == h);
                    assert(h != item);
                }
                let hn = nodes[h];
                nodes.set(h, IntrusiveNode { next: hn.next, prev: Some(item) });
            },
            None => {
                self.tail = Some(item);
            },
        }
        self.head = Some(item);
        self.len = self.len + 1;
        proof {
            self.elems@ = seq![item] + s;
            let t = self.elems@;
            assert forall|i: int| 0 <= i < t.len() implies (#[trigger] t[i]) < nodes@.len() by {
                if i > 0 {
                    assert(t[i] == s[i - 1]);
                }
            }
            assert(t.no_duplicates()) by {
                assert forall|i: int, j: int|
                    0 <= i < t.len() && 0 <= j < t.len() && i != j implies t[i] != t[j] by {
                    if i > 0 && j > 0 {
                        assert(t[i] == s[i - 1] && t[j] == s[j - 1]);
                    } else if i == 0 && j > 0 {
                        assert(t[j] == s[j - 1]);
                        assert(s.contains(s[j - 1]));
                    } else if j == 0 && i > 0 {
                        assert(t[i] == s[i - 1]);
                        assert(s.contains(s[i - 1]));
                    }
                }
            }
            assert forall|i: int|
                0 <= i < t.len() implies (#[trigger] nodes@[t[i] as int]).prev == (if i == 0 {
                Option::<usize>::None
            } else {
                Some(t[i - 1])
            }) by {
                if i > 1 {
                    assert(t[i] == s[i - 1] && t[i - 1] == s[i - 2]);
                    assert(s.contains(s[i - 1]));
                }
            }
            assert forall|i: int|
                0 <= i < t.len() implies (#[trigger] nodes@[t[i] as int]).next == (if i == t.len()
                - 1 {
                Option::<usize>::None
            } else {
                Some(t[i + 1])
            }) by {
                if i > 0 {
                    assert(t[i] == s[i - 1]);
                    assert(s.contains(s[i - 1]));
                    if i < t.len() - 1 {
                        assert(t[i + 1] == s[i]);
                    }
                }
            }
        }
    }

    /// Push an element to the back of the list.
    ///
    /// The pool is written only at `item` and at the old tail.
    pub fn push_back(&mut self, nodes: &mut Vec<IntrusiveNode>, item: usize)
        requires
            old(self).wf(old(nodes)@),
            item < old(nodes).len(),
            !old(self)@.contains(item),
        ensures
            final(self).wf(final(nodes)@),
            final(self)@ == old(self)@.push(item),
            final(nodes)@.len() == old(nodes)@.len(),
            forall|j: int|
                0 <= j < old(nodes)@.len() && j != item && (old(self)@.len() == 0 || j != old(
                    self,
                )@[old(self)@.len() - 1]) ==> final(nodes)@[j] == old(nodes)@[j],
    {
        let ghost s = old(self)@;
        proof {
            lemma_distinct_indices_bounded(s.push(item), old(nodes)@.len());
            assert(s.push(item).no_duplicates());
        }
        let old_tail = self.tail;
        nodes.set(item, IntrusiveNode { next: None, prev: old_tail });
        match old_tail {
            Some(tl) => {
                proof {
                    assert(s[s.len() - 1] == tl);
                    assert(tl != item);
                }
                let tn = nodes[tl];
                nodes.set(tl, IntrusiveNode { next: Some(item), prev: tn.prev });
            },
            None => {
                self.head = Some(item);
            },
        }
        self.tail = Some(item);
        self.len = self.len + 1;
        proof {
            self.elems@ = s.push(item);
            let t = self.elems@;
            assert forall|i: int|
                0 <= i < t.len() implies (#[trigger] nodes@[t[i] as int]).prev == (if i == 0 {
                Option::<usize>::None
            } else {
                Some(t[i - 1])
            }) by {
                if i < t.len() - 1 {
                    assert(t[i] == s[i]);
                    assert(s.contains(s[i]));
                    if i < s.len() - 1 {
                        assert(s[i] != s[s.len() - 1]);
                    }
                }
            }
            assert forall|i: int|
                0 <= i < t.len() implies (#[trigger] nodes@[t[i] as int]).next == (if i == t.len()
                - 1 {
                Option::<usize>::None
            } else {
                Some(t[i + 1])
            }) by {
                if i < t.len() - 1 {
                    assert(t[i] == s[i]);
                    assert(s.contains(s[i]));
                    if i < s.len() - 1 {
                        assert(s[i] != s[s.len() - 1]);
                        assert(t[i + 1] == s[i + 1]);
                    }
                }
            }
        }
    }

    /// Pop the front element.
    ///
    /// The pool is written only at the popped element (reset) and at the
    /// new head.
    pub fn pop_front(&mut self, nodes: &mut Vec<IntrusiveNode>) -> (r: Option<usize>)
        requires
            old(self).wf(old(nodes)@),
        ensures
            final(self).wf(final(nodes)@),
            final(nodes)@.len() == old(nodes)@.len(),
            old(self)@.len() == 0 ==> r is None && *final(self) == *old(self) && *final(nodes)
                == *old(nodes),
            old(self)@.len() > 0 ==> {
                &&& r == Some(old(self)@[0])
                &&& final(self)@ == old(self)@.skip(1)
                &&& final(nodes)@[old(self)@[0] as int].next is None
                &&& final(nodes)@[old(self)@[0] as int].prev is None
                &&& forall|j: int|
                    0 <= j < old(nodes)@.len() && j != old(self)@[0] && (old(self)@.len() == 1 || j
                        != old(self)@[1]) ==> final(nodes)@[j] == old(nodes)@[j]
            },
    {
        let ghost s = old(self)@;
        let h = match self.head {
            Some(h) => h,
            None => {
                return None;
            },
        };
        proof {
            assert(s.len() > 0 && s[0] == h);
        }
        let node = nodes[h];
        self.head = node.next;
        match node.next {
            Some(nh) => {
                proof {
                    assert(s.len() > 1 && s[1] == nh);
                    assert(nh != h);
                }
                let nn = nodes[nh];
                nodes.set(nh, IntrusiveNode { next: nn.next, prev: None });
            },
            None => {
                self.tail = None;
            },
        }
        nodes.set(h, IntrusiveNode { next: None, prev: None });
        self.len = self.len - 1;
        proof {
            self.elems@ = s.skip(1);
            let t = self.elems@;
            assert(t.no_duplicates());
            assert forall|i: int| 0 <= i < t.len() implies (#[trigger] t[i]) < nodes@.len() by {
                assert(t[i] == s[i + 1]);
            }
            if t.len() > 0 {
                assert(t[0] == s[1]);
                assert(t[t.len() - 1] == s[s.len() - 1]);
                assert(s[s.len() - 1] != s[0]);
            }
            assert forall|i: int|
                0 <= i < t.len() implies (#[trigger] nodes@[t[i] as int]).prev == (if i == 0 {
                Option::<usize>::None
            } else {
                Some(t[i - 1])
            }) by {
                assert(t[i] == s[i + 1]);
                assert(s[i + 1] != s[0]);
                if i > 0 {
                    assert(t[i - 1] == s[i]);
                    if i + 1 < s.len() {
                        assert(s[i + 1] != s[1] || i == 0);
                    }
                }
            }
            assert forall|i: int|
                0 <= i < t.len() implies (#[trigger] nodes@[t[i] as int]).next == (if i == t.len()
                - 1 {
                Option::<usize>::None
            } else {
                Some(t[i + 1])
            }) by {
                assert(t[i] == s[i + 1]);
                assert(s[i + 1] != s[0]);
                if i < t.len() - 1 {
                    assert(t[i + 1] == s[i + 2]);
                }
                if i > 0 {
                    assert(s[i + 1] != s[1]);
                }
            }
        }
        Some(h)
    }

    /// Pop the back element.
    ///
    /// The pool is written only at the popped element (reset) and at the
    /// new tail.
    pub fn pop_back(&mut self, nodes: &mut Vec<IntrusiveNode>) -> (r: Option<usize>)
        requires
            old(self).wf(old(nodes)@),
        ensures
            final(self).wf(final(nodes)@),
            final(nodes)@.len() == old(nodes)@.len(),
            old(self)@.len() == 0 ==> r is None && *final(self) == *old(self) && *final(nodes)
                == *old(nodes),
            old(self)@.len() > 0 ==> {
                &&& r == Some(old(self)@.last())
                &&& final(self)@ == old(self)@.drop_last()
                &&& final(nodes)@[old(self)@.last() as int].next is None
                &&& final(nodes)@[old(self)@.last() as int].prev is None
                &&& forall|j: int|
                    0 <= j < old(nodes)@.len() && j != old(self)@.last() && (old(self)@.len() == 1
                        || j != old(self)@[old(self)@.len() - 2]) ==> final(nodes)@[j] == old(
                        nodes,
                    )@[j]
            },
    {
        let ghost s = old(self)@;
        let tl = match self.tail {
            Some(tl) => tl,
            None => {
                proof {
                    if s.len() > 0 {
                        assert(self.tail == Some(s[s.len() - 1]));
                    }
                }
                return None;
            },
        };
        proof {
            assert(s.len() > 0 && s[s.len() - 1] == tl);
        }
        let node = nodes[tl];
        self.tail = node.prev;
        match node.prev {
            Some(pt) => {
                proof {
                    assert(s.len() > 1 && s[s.len() - 2] == pt);
                    assert(pt != tl);
                }
                let pn = nodes[pt];
                nodes.set(pt, IntrusiveNode { next: None, prev: pn.prev });
            },
            None => {
                self.head = None;
            },
        }
        nodes.set(tl, IntrusiveNode { next: None, prev: None });
        self.len = self.len - 1;
        proof {
            self.elems@ = s.drop_last();
            let t = self.elems@;
            assert forall|i: int|
                0 <= i < t.len() implies (#[trigger] nodes@[t[i] as int]).prev == (if i == 0 {
                Option::<usize>::None
            } else {
                Some(t[i - 1])
            }) by {
                assert(t[i] == s[i]);
                assert(s[i] != s[s.len() - 1]);
                if i > 0 {
                    assert(t[i - 1] == s[i - 1]);
                }
                if s.len() > 1 && i != s.len() - 2 {
                    assert(s[i] != s[s.len() - 2]);
                }
            }
            assert forall|i: int|
                0 <= i < t.len() implies (#[trigger] nodes@[t[i] as int]).next == (if i == t.len()
                - 1 {
                Option::<usize>::None
            } else {
                Some(t[i + 1])
            }) by {
                assert(t[i] == s[i]);
                assert(s[i] != s[s.len() - 1]);
                if i < t.len() - 1 {
                    assert(t[i + 1] == s[i + 1]);
                    assert(s[i] != s[s.len() - 2]);
                }
            }
        }
        Some(tl)
    }

    /// Remove a specific element from the list.
    ///
    /// The pool is written only at `item` (reset) and at its two
    /// neighbours.
    pub fn remove(&mut self, nodes: &mut Vec<IntrusiveNode>, item: usize)
        requires
            old(self).wf(old(nodes)@),
            old(self)@.contains(item),
        ensures
            final(self).wf(final(nodes)@),
            final(self)@ == old(self)@.remove(old(self)@.index_of(item)),
            final(nodes)@.len() == old(nodes)@.len(),
            final(nodes)@[item as int].next is None,
            final(nodes)@[item as int].prev is None,
            forall|j: int|
                0 <= j < old(nodes)@.len() && j != item && old(nodes)@[item as int].prev != Some(
                    j as usize,
                ) && old(nodes)@[item as int].next != Some(j as usize) ==> final(nodes)@[j] == old(
                    nodes,
                )@[j],
    {
        let ghost s = old(self)@;
        let ghost idx = s.index_of(item);
        proof {
            assert(0 <= idx < s.len() && s[idx] == item);
        }
        let node = nodes[item];
        proof {
            assert(node.prev == (if idx == 0 {
                Option::<usize>::None
            } else {
                Some(s[idx - 1])
            }));
            assert(node.next == (if idx == s.len() - 1 {
                Option::<usize>::None
            } else {
                Some(s[idx + 1])
            }));
        }
        match node.prev {
            Some(p) => {
                proof {
                    assert(p == s[idx - 1] && p != item);
                }
                let pn = nodes[p];
                nodes.set(p, IntrusiveNode { next: node.next, prev: pn.prev });
            },
            None => {
                self.head = node.next;
            },
        }
        match node.next {
            Some(nx) => {
                proof {
                    assert(nx == s[idx + 1] && nx != item);
                    if idx > 0 {
                        assert(s[idx - 1] != s[idx + 1]);
                    }
                }
                let xn = nodes[nx];
                nodes.set(nx, IntrusiveNode { next: xn.next, prev: node.prev });
            },
            None => {
                self.tail = node.prev;
            },
        }
        nodes.set(item, IntrusiveNode { next: None, prev: None });
        self.len = self.len - 1;
        proof {
            self.elems@ = s.remove(idx);
            let t = self.elems@;
            assert(t.no_duplicates());
            assert forall|i: int| 0 <= i < t.len() implies (#[trigger] t[i]) < nodes@.len() by {
                if i < idx {
                    assert(t[i] == s[i]);
                } else {
                    assert(t[i] == s[i + 1]);
                }
            }
            if t.len() > 0 {
                if idx == 0 {
                    assert(t[0] == s[1]);
                } else {
                    assert(t[0] == s[0]);
                }
                if idx == s.len() - 1 {
                    assert(t[t.len() - 1] == s[s.len() - 2]);
                } else {
                    assert(t[t.len() - 1] == s[s.len() - 1]);
                }
            }
            assert forall|i: int|
                0 <= i < t.len() implies (#[trigger] nodes@[t[i] as int]).prev == (if i == 0 {
                Option::<usize>::None
            } else {
                Some(t[i - 1])
            }) by {
                if i < idx - 1 {
                    assert(t[i] == s[i]);
                    if i > 0 {
                        assert(t[i - 1] == s[i - 1]);
                    }
                } else if i == idx - 1 {
                    assert(t[i] == s[i]);
                    if i > 0 {
                        assert(t[i - 1] == s[i - 1]);
                    }
                } else if i == idx {
                    assert(t[i] == s[i + 1]);
                    if i > 0 {
                        assert(t[i - 1] == s[i - 1]);
                    }
                } else {
                    assert(t[i] == s[i + 1]);
                    assert(t[i - 1] == s[i]);
                }
            }
            assert forall|i: int|
                0 <= i < t.len() implies (#[trigger] nodes@[t[i] as int]).next == (if i == t.len()
                - 1 {
                Option::<usize>::None
            } else {
                Some(t[i + 1])
            }) by {
                if i < idx - 1 {
                    assert(t[i] == s[i]);
                    if i < t.len() - 1 {
                        assert(t[i + 1] == (if i + 1 < idx {
                            s[i + 1]
                        } else {
                            s[i + 2]
                        }));
                    }
                } else if i == idx - 1 {
                    assert(t[i] == s[i]);
                    if i < t.len() - 1 {
                        assert(t[i + 1] == s[i + 2]);
                    }
                } else {
                    assert(t[i] == s[i + 1]);
                    if i < t.len() - 1 {
                        assert(t[i + 1] == s[i + 2]);
                    }
                }
            }
        }
    }
}

/// What a well-formed list's membership sequence looks like: distinct
/// valid indices, no more of them than the pool has nodes.
pub proof fn lemma_list_wf_facts(l: &IntrusiveList, nodes: Seq<IntrusiveNode>)
    requires
        l.wf(nodes),
    ensures
        l@.no_duplicates(),
        forall|i: int| 0 <= i < l@.len() ==> (#[trigger] l@[i]) < nodes.len(),
        l@.len() <= nodes.len(),
        l.shape_ok(),
{
    lemma_distinct_indices_bounded(l@, nodes.len());
}

/// `lemma_list_wf_facts` for a stack.
pub proof fn lemma_stack_wf_facts(l: &IntrusiveStack, nodes: Seq<IntrusiveNode>)
    requires
        l.wf(nodes),
    ensures
        l@.no_duplicates(),
        forall|i: int| 0 <= i < l@.len() ==> (#[trigger] l@[i]) < nodes.len(),
        l@.len() <= nodes.len(),
        l.shape_ok(),
{
    lemma_distinct_indices_bounded(l@, nodes.len());
}

/// `lemma_list_wf_frame` for a queue.
pub proof fn lemma_queue_wf_frame(l: &IntrusiveQueue, nodes0: Seq<IntrusiveNode>, nodes1: Seq<
    IntrusiveNode,
>)
    requires
        l.wf(nodes0),
        nodes1.len() == nodes0.len(),
        forall|k: int| 0 <= k < l@.len() ==> nodes1[(#[trigger] l@[k]) as int] == nodes0[l@[
            k] as int],
    ensures
        l.wf(nodes1),
{
    assert(l@ == l.list@);
    lemma_list_wf_frame(&l.list, nodes0, nodes1);
}

/// `lemma_list_wf_extend` for a queue.
pub proof fn lemma_queue_wf_extend(l: &IntrusiveQueue, nodes0: Seq<IntrusiveNode>, nodes1: Seq<
    IntrusiveNode,
>)
    requires
        l.wf(nodes0),
        nodes0.len() <= nodes1.len(),
        forall|j: int| 0 <= j < nodes0.len() ==> nodes1[j] == nodes0[j],
    ensures
        l.wf(nodes1),
{
    lemma_list_wf_extend(&l.list, nodes0, nodes1);
}

/// `lemma_list_wf_facts` for a queue.
pub proof fn lemma_queue_wf_facts(l: &IntrusiveQueue, nodes: Seq<IntrusiveNode>)
    requires
        l.wf(nodes),
    ensures
        l@.no_duplicates(),
        forall|i: int| 0 <= i < l@.len() ==> (#[trigger] l@[i]) < nodes.len(),
        l@.len() <= nodes.len(),
        l.shape_ok(),
{
    lemma_distinct_indices_bounded(l@, nodes.len());
}

/// The list invariant, as every operation leaves it: the stored length
/// counts the members; the head node has no predecessor and the tail node
/// no successor; and every member's links are mutual — its `prev` is either
/// absent or a member whose `next` points back at it, and symmetrically.
pub proof fn lemma_list_links(l: IntrusiveList, nodes: Seq<IntrusiveNode>)
    requires
        l.wf(nodes),
    ensures
        l@.no_duplicates(),
        l@.len() > 0 ==> nodes[l@[0] as int].prev is None,
        l@.len() > 0 ==> nodes[l@[l@.len() - 1] as int].next is None,
        forall|i: int|
            0 <= i < l@.len() ==> ((#[trigger] nodes[l@[i] as int]).prev is None || {
                let p = nodes[l@[i] as int].prev->0;
                &&& l@.contains(p)
                &&& nodes[p as int].next == Some(l@[i])
            }),
        forall|i: int|
            0 <= i < l@.len() ==> ((#[trigger] nodes[l@[i] as int]).next is None || {
                let nx = nodes[l@[i] as int].next->0;
                &&& l@.contains(nx)
                &&& nodes[nx as int].prev == Some(l@[i])
            }),
{
    let s = l@;
    assert forall|i: int|
        0 <= i < s.len() implies ((#[trigger] nodes[s[i] as int]).prev is None || {
        let p = nodes[s[i] as int].prev->0;
        &&& s.contains(p)
        &&& nodes[p as int].next == Some(s[i])
    }) by {
        if i > 0 {
            assert(nodes[s[i] as int].prev == Some(s[i - 1]));
            assert(s.contains(s[i - 1]));
            assert(nodes[s[i - 1] as int].next == Some(s[i]));
        }
    }
    assert forall|i: int|
        0 <= i < s.len() implies ((#[trigger] nodes[s[i] as int]).next is None || {
        let nx = nodes[s[i] as int].next->0;
        &&& s.contains(nx)
        &&& nodes[nx as int].prev == Some(s[i])
    }) by {
        if i < s.len() - 1 {
            assert(nodes[s[i] as int].next == Some(s[i + 1]));
            assert(s.contains(s[i + 1]));
            assert(nodes[s[i + 1] as int].prev == Some(s[i]));
        }
    }
}

/// A list stays well-formed over a pool whose members' nodes are
/// untouched.
pub proof fn lemma_list_wf_frame(l: &IntrusiveList, nodes0: Seq<IntrusiveNode>, nodes1: Seq<
    IntrusiveNode,
>)
    requires
        l.wf(nodes0),
        nodes1.len() == nodes0.len(),
        forall|k: int| 0 <= k < l@.len() ==> nodes1[(#[trigger] l@[k]) as int] == nodes0[l@[
            k] as int],
    ensures
        l.wf(nodes1),
{
    let s = l@;
    assert forall|i: int|
        0 <= i < s.len() implies (#[trigger] nodes1[s[i] as int]).prev == (if i == 0 {
        Option::<usize>::None
    } else {
        Some(s[i - 1])
    }) && nodes1[s[i] as int].next == (if i == s.len() - 1 {
        Option::<usize>::None
    } else {
        Some(s[i + 1])
    }) by {
        assert(nodes1[s[i] as int] == nodes0[s[i] as int]);
    }
}

/// A list stays well-formed over a pool extended past its old length with
/// the old entries kept.
pub proof fn lemma_list_wf_extend(l: &IntrusiveList, nodes0: Seq<IntrusiveNode>, nodes1: Seq<
    IntrusiveNode,
>)
    requires
        l.wf(nodes0),
        nodes0.len() <= nodes1.len(),
        forall|j: int| 0 <= j < nodes0.len() ==> nodes1[j] == nodes0[j],
    ensures
        l.wf(nodes1),
{
    let s = l@;
    assert forall|i: int|
        0 <= i < s.len() implies (#[trigger] nodes1[s[i] as int]).prev == (if i == 0 {
        Option::<usize>::None
    } else {
        Some(s[i - 1])
    }) && nodes1[s[i] as int].next == (if i == s.len() - 1 {
        Option::<usize>::None
    } else {
        Some(s[i + 1])
    }) by {
        assert(nodes1[s[i] as int] == nodes0[s[i] as int]);
    }
}

/// Intrusive stack (LIFO): `push` is `push_front`, `pop` is `pop_front`.
pub struct IntrusiveStack {
    list: IntrusiveList,
}

impl IntrusiveStack {
    /// The members, top first.
    pub closed spec fn view(&self) -> Seq<usize> {
        self.list@
    }

    pub closed spec fn wf(&self, nodes: Seq<IntrusiveNode>) -> bool {
        self.list.wf(nodes)
    }

    pub closed spec fn shape_ok(&self) -> bool {
        self.list.shape_ok()
    }

    /// Create a new empty stack
    pub fn new() -> (r: IntrusiveStack)
        ensures
            r@ == Seq::<usize>::empty(),
            forall|nodes: Seq<IntrusiveNode>| r.wf(nodes),
    {
        IntrusiveStack { list: IntrusiveList::new() }
    }

    /// Check if empty
    pub fn is_empty(&self) -> (r: bool)
        requires
            self.shape_ok(),
        ensures
            r == (self@.len() == 0),
    {
        self.list.is_empty()
    }

    /// Get count
    pub fn len(&self) -> (r: usize)
        requires
            self.shape_ok(),
        ensures
            r == self@.len(),
    {
        self.list.len()
    }

    /// Push item onto stack
    pub fn push(&mut self, nodes: &mut Vec<IntrusiveNode>, item: usize)
        requires
            old(self).wf(old(nodes)@),
            item < old(nodes).len(),
            !old(self)@.contains(item),
        ensures
            final(self).wf(final(nodes)@),
            final(self)@ == seq![item] + old(self)@,
            final(nodes)@.len() == old(nodes)@.len(),
            forall|j: int|
                0 <= j < old(nodes)@.len() && j != item && (old(self)@.len() == 0 || j != old(
                    self,
                )@[0]) ==> final(nodes)@[j] == old(nodes)@[j],
    {
        self.list.push_front(nodes, item);
    }

    /// Pop item from stack
    pub fn pop(&mut self, nodes: &mut Vec<IntrusiveNode>) -> (r: Option<usize>)
        requires
            old(self).wf(old(nodes)@),
        ensures
            final(self).wf(final(nodes)@),
            final(nodes)@.len() == old(nodes)@.len(),
            old(self)@.len() == 0 ==> r is None && *final(self) == *old(self) && *final(nodes)
                == *old(nodes),
            old(self)@.len() > 0 ==> {
                &&& r == Some(old(self)@[0])
                &&& final(self)@ == old(self)@.skip(1)
                &&& forall|j: int|
                    0 <= j < old(nodes)@.len() && j != old(self)@[0] && (old(self)@.len() == 1 || j
                        != old(self)@[1]) ==> final(nodes)@[j] == old(nodes)@[j]
            },
    {
        self.list.pop_front(nodes)
    }
}

/// Intrusive queue (FIFO): `enqueue` is `push_back`, `dequeue` is
/// `pop_front`.
pub struct IntrusiveQueue {
    list: IntrusiveList,
}

impl IntrusiveQueue {
    /// The members, front (next out) first.
    pub closed spec fn view(&self) -> Seq<usize> {
        self.list@
    }

    pub closed spec fn wf(&self, nodes: Seq<IntrusiveNode>) -> bool {
        self.list.wf(nodes)
    }

    pub closed spec fn shape_ok(&self) -> bool {
        self.list.shape_ok()
    }

    /// Create a new empty queue
    pub fn new() -> (r: IntrusiveQueue)
        ensures
            r@ == Seq::<usize>::empty(),
            forall|nodes: Seq<IntrusiveNode>| r.wf(nodes),
    {
        IntrusiveQueue { list: IntrusiveList::new() }
    }

    /// Check if empty
    pub fn is_empty(&self) -> (r: bool)
        requires
            self.shape_ok(),
        ensures
            r == (self@.len() == 0),
    {
        self.list.is_empty()
    }

    /// Get count
    pub fn len(&self) -> (r: usize)
        requires
            self.shape_ok(),
        ensures
            r == self@.len(),
    {
        self.list.len()
    }

    /// Enqueue item (add to back)
    pub fn enqueue(&mut self, nodes: &mut Vec<IntrusiveNode>, item: usize)
        requires
            old(self).wf(old(nodes)@),
            item < old(nodes).len(),
            !old(self)@.contains(item),
        ensures
            final(self).wf(final(nodes)@),
            final(self)@ == old(self)@.push(item),
            final(nodes)@.len() == old(nodes)@.len(),
            forall|j: int|
                0 <= j < old(nodes)@.len() && j != item && (old(self)@.len() == 0 || j != old(
                    self,
                )@.last()) ==> final(nodes)@[j] == old(nodes)@[j],
    {
        self.list.push_back(nodes, item);
    }

    /// Dequeue item (remove from front)
    pub fn dequeue(&mut self, nodes: &mut Vec<IntrusiveNode>) -> (r: Option<usize>)
        requires
            old(self).wf(old(nodes)@),
        ensures
            final(self).wf(final(nodes)@),
            final(nodes)@.len() == old(nodes)@.len(),
            old(self)@.len() == 0 ==> r is None && *final(self) == *old(self) && *final(nodes)
                == *old(nodes),
            old(self)@.len() > 0 ==> {
                &&& r == Some(old(self)@[0])
                &&& final(self)@ == old(self)@.skip(1)
                &&& forall|j: int|
                    0 <= j < old(nodes)@.len() && j != old(self)@[0] && (old(self)@.len() == 1 || j
                        != old(self)@[1]) ==> final(nodes)@[j] == old(nodes)@[j]
            },
    {
        self.list.pop_front(nodes)
    }

    /// Peek at front item
    pub fn peek(&self) -> (r: Option<usize>)
        requires
            self.shape_ok(),
        ensures
            r == (if self@.len() == 0 {
                Option::<usize>::None
            } else {
                Some(self@[0])
            }),
    {
        self.list.front()
    }
}

} // verus!
