use vstd::prelude::*;
use crate::error::Error;
use crate::ir::{
    ir_seq_size, ir_size, lemma_ir_seq_size_concat, lemma_ir_size_children, spec_children,
    RustEnumVariable, StructVariable, VariableIR,
};
use crate::scalar::spec_try_as_number;
use crate::shim::str_eq;

verus! {

/// The values behind a sequence of node references.
pub open spec fn deref_seq(s: Seq<&VariableIR>) -> Seq<VariableIR> {
    s.map_values(|x: &VariableIR| *x)
}

/// The breadth-first visit order starting from a queue of pending nodes:
/// the head of the queue first, followed by the order that results from
/// appending the head's structural children to the queue.  Every node is
/// visited before any of its descendants, and the children of earlier nodes
/// are visited before the children of later ones, left to right.
pub open spec fn bfs_from(q: Seq<VariableIR>) -> Seq<VariableIR>
    decreases ir_seq_size(q),
    via bfs_from_decreases
{
    if q.len() == 0 {
        Seq::empty()
    } else {
        seq![q[0]] + bfs_from(q.drop_first() + spec_children(q[0]))
    }
}

#[via_fn]
proof fn bfs_from_decreases(q: Seq<VariableIR>) {
    if q.len() > 0 {
        lemma_ir_seq_size_concat(q.drop_first(), spec_children(q[0]));
        lemma_ir_size_children(q[0]);
    }
}

/// The breadth-first visit order of the tree rooted at `root`.
pub open spec fn spec_bfs(root: VariableIR) -> Seq<VariableIR> {
    bfs_from(seq![root])
}

/// The first node of `s` whose name is `name`.
pub open spec fn first_named(s: Seq<VariableIR>, name: Seq<char>) -> Option<VariableIR>
    decreases s.len(),
{
    if s.len() == 0 {
        None
    } else if s[0].spec_name() == Some(name) {
        Some(s[0])
    } else {
        first_named(s.drop_first(), name)
    }
}

/// The captured address of the first pointer node of `s` whose name is
/// `name` and whose address is present.
pub open spec fn first_pointer_value(s: Seq<VariableIR>, name: Seq<char>) -> Option<u64>
    decreases s.len(),
{
    if s.len() == 0 {
        None
    } else {
        match s[0] {
            VariableIR::Pointer(p) => if s[0].spec_name() == Some(name) && p.value is Some {
                p.value
            } else {
                first_pointer_value(s.drop_first(), name)
            },
            _ => first_pointer_value(s.drop_first(), name),
        }
    }
}

/// The first structure node of `s` whose name is `name`.
pub open spec fn first_struct(s: Seq<VariableIR>, name: Seq<char>) -> Option<StructVariable>
    decreases s.len(),
{
    if s.len() == 0 {
        None
    } else {
        match s[0] {
            VariableIR::Struct(st) => if s[0].spec_name() == Some(name) {
                Some(st)
            } else {
                first_struct(s.drop_first(), name)
            },
            _ => first_struct(s.drop_first(), name),
        }
    }
}

/// The first tagged-enum node of `s` whose name is `name`.
pub open spec fn first_rust_enum(s: Seq<VariableIR>, name: Seq<char>) -> Option<RustEnumVariable>
    decreases s.len(),
{
    if s.len() == 0 {
        None
    } else {
        match s[0] {
            VariableIR::RustEnum(e) => if s[0].spec_name() == Some(name) {
                Some(e)
            } else {
                first_rust_enum(s.drop_first(), name)
            },
            _ => first_rust_enum(s.drop_first(), name),
        }
    }
}

/// Appends references to the structural children of `node`.
pub(crate) fn push_children<'a>(queue: &mut Vec<&'a VariableIR>, node: &'a VariableIR)
    ensures
        final(queue)@.len() == old(queue)@.len() + spec_children(*node).len(),
        forall|i: int| 0 <= i < old(queue)@.len() ==> final(queue)@[i] == old(queue)@[i],
        forall|j: int|
            0 <= j < spec_children(*node).len() ==> *(#[trigger] final(queue)@[old(
                queue,
            )@.len() + j]) == spec_children(*node)[j],
{
    match node {
        VariableIR::Scalar(_) => {},
        VariableIR::CEnum(_) => {},
        VariableIR::Pointer(_) => {},
        VariableIR::Struct(s) => {
            push_member_refs(queue, &s.members);
        },
        VariableIR::Array(a) => {
            match &a.items {
                Some(items) => {
                    push_member_refs(queue, items);
                },
                None => {},
            }
        },
        VariableIR::RustEnum(e) => {
            match &e.value {
                Some(b) => {
                    queue.push(&**b);
                    assert(spec_children(*node) =~= seq![**b]);
                },
                None => {
                    assert(spec_children(*node) =~= Seq::<VariableIR>::empty());
                },
            }
        },
        VariableIR::Specialized(s) => {
            push_member_refs(queue, &s.original().members);
        },
    }
}

/// Appends references to every element of `members`, in order.
fn push_member_refs<'a>(queue: &mut Vec<&'a VariableIR>, members: &'a Vec<VariableIR>)
    ensures
        final(queue)@.len() == old(queue)@.len() + members@.len(),
        forall|i: int| 0 <= i < old(queue)@.len() ==> final(queue)@[i] == old(queue)@[i],
        forall|j: int|
            0 <= j < members@.len() ==> *(#[trigger] final(queue)@[old(queue)@.len() + j])
                == members@[j],
{
    let mut j: usize = 0;
    while j < members.len()
        invariant
            j <= members@.len(),
            queue@.len() == old(queue)@.len() + j,
            forall|i: int| 0 <= i < old(queue)@.len() ==> queue@[i] == old(queue)@[i],
            forall|k: int|
                0 <= k < j ==> *(#[trigger] queue@[old(queue)@.len() + k]) == members@[k],
        decreases members@.len() - j,
    {
        queue.push(&members[j]);
        j += 1;
    }
}

/// The children of every node of a forest, in order: the expansion that
/// produces the next level of a breadth-first traversal.
pub open spec fn flat_children(q: Seq<VariableIR>) -> Seq<VariableIR>
    decreases q.len(),
{
    if q.len() == 0 {
        Seq::empty()
    } else {
        spec_children(q[0]) + flat_children(q.drop_first())
    }
}

proof fn lemma_flat_children_concat(a: Seq<VariableIR>, b: Seq<VariableIR>)
    ensures
        flat_children(a + b) == flat_children(a) + flat_children(b),
    decreases a.len(),
{
    if a.len() == 0 {
        assert(a + b =~= b);
        assert(flat_children(a) =~= Seq::<VariableIR>::empty());
        assert(flat_children(a) + flat_children(b) =~= flat_children(b));
    } else {
        assert((a + b).drop_first() =~= a.drop_first() + b);
        lemma_flat_children_concat(a.drop_first(), b);
        assert(flat_children(a + b) =~= flat_children(a) + flat_children(b));
    }
}

proof fn lemma_bfs_from_shift(a: Seq<VariableIR>, b: Seq<VariableIR>)
    ensures
        bfs_from(a + b) == a + bfs_from(b + flat_children(a)),
    decreases a.len(),
{
    if a.len() == 0 {
        assert(a + b =~= b);
        assert(flat_children(a) =~= Seq::<VariableIR>::empty());
        assert(b + flat_children(a) =~= b);
        assert(a + bfs_from(b) =~= bfs_from(b));
    } else {
        let a0 = a[0];
        let rest = a.drop_first();
        assert((a + b)[0] == a0);
        assert((a + b).drop_first() =~= rest + b);
        assert((rest + b) + spec_children(a0) =~= rest + (b + spec_children(a0)));
        lemma_bfs_from_shift(rest, b + spec_children(a0));
        assert((b + spec_children(a0)) + flat_children(rest) =~= b + flat_children(a));
        assert(seq![a0] + (rest + bfs_from(b + flat_children(a))) =~= a + bfs_from(
            b + flat_children(a),
        ));
    }
}

/// The level order of the breadth-first traversal: starting from any queue
/// of pending nodes, the traversal yields those nodes first, left to right
/// in insertion order, followed by the entire traversal of their children.
/// Every parent is therefore visited before any of its descendants, and
/// each level is visited left to right.
pub proof fn lemma_bfs_level_order(q: Seq<VariableIR>)
    ensures
        bfs_from(q) == q + bfs_from(flat_children(q)),
{
    lemma_bfs_from_shift(q, Seq::empty());
    assert(q + Seq::<VariableIR>::empty() =~= q);
    assert(Seq::<VariableIR>::empty() + flat_children(q) =~= flat_children(q));
}

/// A tree's breadth-first order visits the root first and the root's
/// children level by level after it.
pub proof fn lemma_bfs_root_first(root: VariableIR)
    ensures
        spec_bfs(root).len() > 0,
        spec_bfs(root)[0] == root,
        spec_bfs(root) == seq![root] + bfs_from(spec_children(root)),
{
    lemma_bfs_level_order(seq![root]);
    assert(seq![root].drop_first() =~= Seq::<VariableIR>::empty());
    assert(flat_children(seq![root].drop_first()) =~= Seq::<VariableIR>::empty());
    assert(flat_children(seq![root]) == spec_children(root) + flat_children(
        seq![root].drop_first(),
    ));
    assert(spec_children(root) + Seq::<VariableIR>::empty() =~= spec_children(root));
    assert(seq![root] + bfs_from(flat_children(seq![root])) =~= seq![root] + bfs_from(
        spec_children(root),
    ));
}

impl VariableIR {
    /// Collects references to the nodes of this tree in breadth-first
    /// order: the root first, every parent before any of its descendants,
    /// and each level left to right in insertion order.
    pub fn bfs_collect(&self) -> (r: Vec<&VariableIR>)
        ensures
            deref_seq(r@) == spec_bfs(*self),
    {
        let mut queue: Vec<&VariableIR> = Vec::new();
        queue.push(self);
        proof {
            assert(deref_seq(queue@) =~= seq![*self]);
            assert(deref_seq(queue@.skip(0)) =~= deref_seq(queue@));
        }
        let mut cur: usize = 0;
        while cur < queue.len()
            invariant
                cur <= queue@.len(),
                spec_bfs(*self) == deref_seq(queue@.take(cur as int)) + bfs_from(
                    deref_seq(queue@.skip(cur as int)),
                ),
            decreases ir_seq_size(deref_seq(queue@.skip(cur as int))),
        {
            let ghost pre = queue@;
            let ghost pending = deref_seq(pre.skip(cur as int));
            let node = queue[cur];
            proof {
                assert(pending.len() > 0);
                assert(pending[0] == *node);
            }
            push_children(&mut queue, node);
            cur += 1;
            proof {
                lemma_ir_seq_size_concat(pending.drop_first(), spec_children(*node));
                lemma_ir_size_children(*node);
                let kids = spec_children(*node);
                assert(queue@.len() == pre.len() + kids.len());
                assert forall|j: int|
                    0 <= j < queue@.len() - cur implies deref_seq(queue@.skip(cur as int))[j] == (
                pending.drop_first() + kids)[j] by {
                    if cur + j < pre.len() {
                        assert(queue@[cur + j] == pre[cur + j]);
                        assert(pending[j + 1] == *pre[cur + j]);
                    } else {
                        let k = cur + j - pre.len();
                        assert(*queue@[pre.len() as int + k] == kids[k]);
                    }
                }
                assert(deref_seq(queue@.skip(cur as int)) =~= pending.drop_first() + kids);
                assert(deref_seq(queue@.take(cur as int)) =~= deref_seq(pre.take(cur - 1))
                    + seq![*node]);
                assert(spec_bfs(*self) == deref_seq(pre.take(cur - 1)) + (seq![pending[0]]
                    + bfs_from(pending.drop_first() + kids)));
                assert(deref_seq(pre.take(cur - 1)) + (seq![pending[0]] + bfs_from(
                    pending.drop_first() + kids,
                )) =~= (deref_seq(pre.take(cur - 1)) + seq![*node]) + bfs_from(
                    pending.drop_first() + kids,
                ));
            }
        }
        proof {
            assert(deref_seq(queue@.skip(cur as int)) =~= Seq::<VariableIR>::empty());
            assert(deref_seq(queue@.take(cur as int)) =~= deref_seq(queue@));
        }
        queue
    }

    /// A reference to the first breadth-first descendant named
    /// `field_name`, of any kind.
    pub fn find_first_named(&self, field_name: &str) -> (r: Option<&VariableIR>)
        ensures
            match first_named(spec_bfs(*self), field_name@) {
                Some(n) => r matches Some(out) && *out == n,
                None => r is None,
            },
    {
        let nodes = self.bfs_collect();
        let ghost all = spec_bfs(*self);
        proof {
            assert(all.skip(0) =~= all);
        }
        let mut i: usize = 0;
        while i < nodes.len()
            invariant
                all == spec_bfs(*self),
                i <= nodes@.len(),
                deref_seq(nodes@) == all,
                first_named(all, field_name@) == first_named(all.skip(i as int), field_name@),
            decreases nodes@.len() - i,
        {
            let node = nodes[i];
            let ident = node.identity();
            let is_match = match &ident.name {
                Some(n) => str_eq(n.as_str(), field_name),
                None => false,
            };
            proof {
                assert(all.skip(i as int)[0] == *node);
                assert(all.skip(i as int).drop_first() =~= all.skip(i + 1));
                assert(is_match == ((*node).spec_name() == Some(field_name@)));
            }
            if is_match {
                proof {
                    assert(first_named(all.skip(i as int), field_name@) == Some(*node));
                }
                return Some(node);
            }
            i += 1;
        }
        proof {
            assert(all.skip(i as int) =~= Seq::<VariableIR>::empty());
        }
        None
    }

    /// The promoted value of the first breadth-first descendant named
    /// `field_name`: fails when no node carries the name, or when the first
    /// one that does is not an integer scalar.
    pub fn assume_field_as_scalar_number(&self, field_name: &'static str) -> (r: Result<i64, Error>)
        ensures
            match first_named(spec_bfs(*self), field_name@) {
                None => r == Err::<i64, Error>(Error::FieldNotFound(field_name)),
                Some(ir) => match ir {
                    VariableIR::Scalar(s) => match spec_try_as_number(s.value) {
                        Some(n) => r == Ok::<i64, Error>(n),
                        None => r == Err::<i64, Error>(Error::FieldNotANumber(field_name)),
                    },
                    _ => r == Err::<i64, Error>(Error::FieldNotANumber(field_name)),
                },
            },
    {
        let nodes = self.bfs_collect();
        let ghost all = spec_bfs(*self);
        proof {
            assert(all.skip(0) =~= all);
        }
        let mut i: usize = 0;
        while i < nodes.len()
            invariant
                all == spec_bfs(*self),
                i <= nodes@.len(),
                deref_seq(nodes@) == all,
                first_named(all, field_name@) == first_named(
                    all.skip(i as int),
                    field_name@,
                ),
            decreases nodes@.len() - i,
        {
            let node = nodes[i];
            let ident = node.identity();
            let is_match = match &ident.name {
                Some(n) => str_eq(n.as_str(), field_name),
                None => false,
            };
            proof {
                assert(all.skip(i as int)[0] == *node);
                assert(all.skip(i as int).drop_first() =~= all.skip(i + 1));
                assert(is_match == ((*node).spec_name() == Some(field_name@)));
            }
            if is_match {
                proof {
                    assert(first_named(all.skip(i as int), field_name@) == Some(*node));
                    assert(first_named(all, field_name@) == Some(*node));
                }
                return match node {
                    VariableIR::Scalar(s) => match s.try_as_number() {
                        Some(n) => Ok(n),
                        None => Err(Error::FieldNotANumber(field_name)),
                    },
                    _ => Err(Error::FieldNotANumber(field_name)),
                };
            }
            i += 1;
        }
        proof {
            assert(all.skip(i as int) =~= Seq::<VariableIR>::empty());
        }
        Err(Error::FieldNotFound(field_name))
    }

    /// The captured address of the first breadth-first pointer descendant
    /// named `field_name` whose address is present.
    pub fn assume_field_as_pointer(&self, field_name: &'static str) -> (r: Result<u64, Error>)
        ensures
            match first_pointer_value(spec_bfs(*self), field_name@) {
                Some(p) => r == Ok::<u64, Error>(p),
                None => r == Err::<u64, Error>(Error::IncompleteInterp("pointer")),
            },
    {
        let nodes = self.bfs_collect();
        let ghost all = spec_bfs(*self);
        proof {
            assert(all.skip(0) =~= all);
        }
        let mut i: usize = 0;
        while i < nodes.len()
            invariant
                all == spec_bfs(*self),
                i <= nodes@.len(),
                deref_seq(nodes@) == all,
                first_pointer_value(all, field_name@) == first_pointer_value(
                    all.skip(i as int),
                    field_name@,
                ),
            decreases nodes@.len() - i,
        {
            let node = nodes[i];
            proof {
                assert(all.skip(i as int)[0] == *node);
                assert(all.skip(i as int).drop_first() =~= all.skip(i + 1));
            }
            match node {
                VariableIR::Pointer(p) => {
                    let is_match = match &p.identity.name {
                        Some(n) => str_eq(n.as_str(), field_name),
                        None => false,
                    };
                    proof {
                        assert(is_match == ((*node).spec_name() == Some(field_name@)));
                    }
                    if is_match {
                        match p.value {
                            Some(v) => {
                                proof {
                                    assert(first_pointer_value(all.skip(i as int), field_name@)
                                        == Some(v));
                                }
                                return Ok(v);
                            },
                            None => {},
                        }
                    }
                },
                _ => {},
            }
            i += 1;
        }
        proof {
            assert(all.skip(i as int) =~= Seq::<VariableIR>::empty());
        }
        Err(Error::IncompleteInterp("pointer"))
    }

    /// The first breadth-first structure descendant named `field_name`.
    pub fn assume_field_as_struct(&self, field_name: &'static str) -> (r: Result<
        &StructVariable,
        Error,
    >)
        ensures
            match first_struct(spec_bfs(*self), field_name@) {
                Some(st) => r matches Ok(out) && *out == st,
                None => r == Err::<&StructVariable, Error>(Error::IncompleteInterp("structure")),
            },
    {
        let nodes = self.bfs_collect();
        let ghost all = spec_bfs(*self);
        proof {
            assert(all.skip(0) =~= all);
        }
        let mut i: usize = 0;
        while i < nodes.len()
            invariant
                all == spec_bfs(*self),
                i <= nodes@.len(),
                deref_seq(nodes@) == all,
                first_struct(all, field_name@) == first_struct(all.skip(i as int), field_name@),
            decreases nodes@.len() - i,
        {
            let node = nodes[i];
            proof {
                assert(all.skip(i as int)[0] == *node);
                assert(all.skip(i as int).drop_first() =~= all.skip(i + 1));
            }
            match node {
                VariableIR::Struct(st) => {
                    let is_match = match &st.identity.name {
                        Some(n) => str_eq(n.as_str(), field_name),
                        None => false,
                    };
                    proof {
                        assert(is_match == ((*node).spec_name() == Some(field_name@)));
                    }
                    if is_match {
                        proof {
                            assert(first_struct(all.skip(i as int), field_name@) == Some(*st));
                        }
                        return Ok(st);
                    }
                },
                _ => {},
            }
            i += 1;
        }
        proof {
            assert(all.skip(i as int) =~= Seq::<VariableIR>::empty());
        }
        Err(Error::IncompleteInterp("structure"))
    }

    /// The first breadth-first tagged-enum descendant named `field_name`.
    pub fn assume_field_as_rust_enum(&self, field_name: &'static str) -> (r: Result<
        &RustEnumVariable,
        Error,
    >)
        ensures
            match first_rust_enum(spec_bfs(*self), field_name@) {
                Some(e) => r matches Ok(out) && *out == e,
                None => r == Err::<&RustEnumVariable, Error>(Error::IncompleteInterp("pointer")),
            },
    {
        let nodes = self.bfs_collect();
        let ghost all = spec_bfs(*self);
        proof {
            assert(all.skip(0) =~= all);
        }
        let mut i: usize = 0;
        while i < nodes.len()
            invariant
                all == spec_bfs(*self),
                i <= nodes@.len(),
                deref_seq(nodes@) == all,
                first_rust_enum(all, field_name@) == first_rust_enum(
                    all.skip(i as int),
                    field_name@,
                ),
            decreases nodes@.len() - i,
        {
            let node = nodes[i];
            proof {
                assert(all.skip(i as int)[0] == *node);
                assert(all.skip(i as int).drop_first() =~= all.skip(i + 1));
            }
            match node {
                VariableIR::RustEnum(e) => {
                    let is_match = match &e.identity.name {
                        Some(n) => str_eq(n.as_str(), field_name),
                        None => false,
                    };
                    proof {
                        assert(is_match == ((*node).spec_name() == Some(field_name@)));
                    }
                    if is_match {
                        proof {
                            assert(first_rust_enum(all.skip(i as int), field_name@) == Some(*e));
                        }
                        return Ok(e);
                    }
                },
                _ => {},
            }
            i += 1;
        }
        proof {
            assert(all.skip(i as int) =~= Seq::<VariableIR>::empty());
        }
        Err(Error::IncompleteInterp("pointer"))
    }
}

} // verus!
