use vstd::prelude::*;
use crate::bfs::first_named;
use crate::ident::{ns_view, opt_name_view, VariableIdentity};
use crate::ir::{ArrayVariable, PointerVariable, SpecializedVariableIR, VariableIR};
use crate::memory::{mem_slice, MemoryGateway};
use crate::numfmt::{dec_int, u64_dec_string};
use crate::parse::{inner_result_ok, VariableParser};
use crate::shim::str_eq;
use crate::types::{spec_size_fuel, spec_size_in_bytes, EvaluationContext};

verus! {

/// One navigation step of a selection plan.
pub enum Operation {
    /// Selects a variable by name before navigation starts; a no-op here,
    /// consumed by the caller that looked the variable up.
    FindVariable(String),
    /// Dereferences a pointer, reading the target from the inferior.
    Deref,
    /// Descends into a member by name.
    GetField(String),
    /// Descends into an element by index.
    GetByIndex(usize),
    /// Reads a contiguous run of elements behind a pointer.
    Slice(usize),
}

/// An ordered list of navigation steps.
pub struct SelectPlan {
    pub plan: Vec<Operation>,
}

/// The string contents of a hash-map key, defined for materialized string
/// keys only.
pub open spec fn spec_key_string(k: VariableIR) -> Option<Seq<char>> {
    match k {
        VariableIR::Specialized(SpecializedVariableIR::String { string: Some(sv), .. }) => Some(
            sv.value@,
        ),
        VariableIR::Specialized(SpecializedVariableIR::Str { string: Some(sv), .. }) => Some(
            sv.value@,
        ),
        _ => None,
    }
}

/// The value of the first pair whose key is a materialized string equal to
/// `name`.
pub open spec fn spec_map_lookup(kv: Seq<(VariableIR, VariableIR)>, name: Seq<char>) -> Option<
    VariableIR,
>
    decreases kv.len(),
{
    if kv.len() == 0 {
        None
    } else if spec_key_string(kv[0].0) == Some(name) {
        Some(kv[0].1)
    } else {
        spec_map_lookup(kv.drop_first(), name)
    }
}

/// The member a field access resolves to: the first same-named member of a
/// structure, a lookup by string key on a materialized hash map, and
/// delegation through tagged enums and thread-local wrappers.
pub open spec fn spec_get_field(ir: VariableIR, name: Seq<char>) -> Option<VariableIR>
    decreases ir,
{
    match ir {
        VariableIR::Struct(s) => first_named(s.members@, name),
        VariableIR::RustEnum(e) => match e.value {
            Some(b) => spec_get_field(*b, name),
            None => None,
        },
        VariableIR::Specialized(sp) => match sp {
            SpecializedVariableIR::HashMap { map: Some(m), .. } => spec_map_lookup(
                m.kv_items@,
                name,
            ),
            SpecializedVariableIR::Tls { tls_var: Some(t), .. } => match t.inner_value {
                Some(b) => spec_get_field(*b, name),
                None => None,
            },
            _ => None,
        },
        _ => None,
    }
}

/// The element an index access resolves to: an in-range item of an array,
/// an element of a materialized vector's buffer, and delegation through
/// tagged enums and thread-local wrappers.
pub open spec fn spec_get_by_index(ir: VariableIR, idx: int) -> Option<VariableIR>
    decreases ir,
{
    match ir {
        VariableIR::Array(a) => match a.items {
            Some(items) => if 0 <= idx < items@.len() {
                Some(items@[idx])
            } else {
                None
            },
            None => None,
        },
        VariableIR::RustEnum(e) => match e.value {
            Some(b) => spec_get_by_index(*b, idx),
            None => None,
        },
        VariableIR::Specialized(sp) => match sp {
            SpecializedVariableIR::Vector { vec: Some(v), .. } => if v.structure.members@.len()
                > 0 {
                spec_get_by_index(v.structure.members@[0], idx)
            } else {
                None
            },
            SpecializedVariableIR::Tls { tls_var: Some(t), .. } => match t.inner_value {
                Some(b) => spec_get_by_index(*b, idx),
                None => None,
            },
            _ => None,
        },
        _ => None,
    }
}

/// The name of a dereferenced node: the pointer's name behind a star.
pub open spec fn spec_deref_name(n: Option<Seq<char>>) -> Option<Seq<char>> {
    match n {
        Some(s) => Some(seq!['*'] + s),
        None => None,
    }
}

/// The name of a sliced node: the pointer's name behind a star, bracketed.
pub open spec fn spec_slice_name(n: Option<Seq<char>>) -> Option<Seq<char>> {
    match n {
        Some(s) => Some(seq!['[', '*'] + s + seq![']']),
        None => None,
    }
}

/// The bytes a dereference hands to the reifier: the target's size worth of
/// memory at the captured address when that size is known and the read
/// serves, absent otherwise.
pub open spec fn spec_deref_bytes<M: MemoryGateway>(
    gw: &M,
    graph: &crate::types::ComplexType,
    addr: u64,
    target: crate::types::TypeIdentity,
) -> Option<Seq<u8>> {
    match spec_size_in_bytes(graph, target, spec_size_fuel(graph)) {
        Some(sz) => if gw.readable(addr as int, sz as int) {
            Some(mem_slice(gw.mem(), addr as int, sz as int))
        } else {
            None
        },
        None => None,
    }
}

/// What a pointer slice guarantees: with a captured address, a known
/// target type of known nonzero size, and a readable run of `len` targets,
/// the result is an array of `len` elements named by index and decoded
/// from their chunk of the run, under the pointer's bracketed name;
/// otherwise there is no result.
pub open spec fn pointer_slice_ok<M: MemoryGateway>(
    gw: &M,
    graph: &crate::types::ComplexType,
    p: PointerVariable,
    len: usize,
    r: Option<VariableIR>,
) -> bool {
    match (p.value, p.target_type) {
        (Some(addr), Some(target)) => match spec_size_in_bytes(
            graph,
            target,
            spec_size_fuel(graph),
        ) {
            Some(sz) => if 0 < sz && len * sz <= u64::MAX && gw.readable(addr as int, len * sz) {
                r matches Some(ir) && ir matches VariableIR::Array(av) && opt_name_view(
                    &av.identity.name,
                ) == spec_slice_name(opt_name_view(&p.identity.name)) && ns_view(
                    &av.identity.namespace,
                ) == ns_view(&p.identity.namespace) && (av.items matches Some(items) && {
                    &&& items@.len() == len
                    &&& (forall|j: int|
                        0 <= j < items@.len() ==> (#[trigger] items@[j]).spec_name() == Some(
                            dec_int(j),
                        ))
                    &&& (forall|j: int|
                        0 <= j < items@.len() ==> crate::parse::element_matches(
                            graph,
                            target,
                            mem_slice(gw.mem(), addr + j * sz, sz as int),
                            #[trigger] items@[j],
                        ))
                })
            } else {
                r is None
            },
            None => r is None,
        },
        _ => r is None,
    }
}

/// What a pointer dereference guarantees: with a captured address and a
/// known target type the result is the reification of the target's bytes
/// under a starred name; without either there is no result.
pub open spec fn pointer_deref_ok<M: MemoryGateway>(
    gw: &M,
    graph: &crate::types::ComplexType,
    p: PointerVariable,
    r: Option<VariableIR>,
) -> bool {
    match (p.value, p.target_type) {
        (Some(addr), Some(target)) => r matches Some(ir) && (exists|ident: VariableIdentity|
            deref_result_witness(gw, graph, p, addr, target, ident, ir)),
        _ => r is None,
    }
}

/// The witness relation behind a dereference: the synthetic identity keeps
/// the pointer's namespace and renames to the starred name, and the node is
/// what the reifier produces for the target type from the read bytes.
pub open spec fn deref_result_witness<M: MemoryGateway>(
    gw: &M,
    graph: &crate::types::ComplexType,
    p: PointerVariable,
    addr: u64,
    target: crate::types::TypeIdentity,
    ident: VariableIdentity,
    ir: VariableIR,
) -> bool {
    &&& opt_name_view(&ident.name) == spec_deref_name(opt_name_view(&p.identity.name))
    &&& ns_view(&ident.namespace) == ns_view(&p.identity.namespace)
    &&& *ir.spec_identity() == ident
    &&& (target.0 < graph.types@.len() ==> inner_result_ok(
        graph,
        graph.types@[target.0 as int],
        ident,
        spec_deref_bytes(gw, graph, addr, target),
        target,
        ir,
    ))
    &&& (target.0 >= graph.types@.len() ==> (ir matches VariableIR::Scalar(sv)
        && sv.value is None))
}

/// Whether a step navigates without touching the inferior's memory.
pub open spec fn op_is_pure(op: Operation) -> bool {
    match op {
        Operation::FindVariable(_) => true,
        Operation::GetField(_) => true,
        Operation::GetByIndex(_) => true,
        Operation::Deref => false,
        Operation::Slice(_) => false,
    }
}

/// Whether a plan consists of pure steps only.
pub open spec fn all_pure(plan: Seq<Operation>) -> bool {
    forall|i: int| 0 <= i < plan.len() ==> op_is_pure(#[trigger] plan[i])
}

/// The result of a plan of pure steps, folded left to right; a step that
/// does not apply ends the selection with no result.
pub open spec fn spec_apply_pure(ir: VariableIR, plan: Seq<Operation>) -> Option<VariableIR>
    decreases plan.len(),
{
    if plan.len() == 0 {
        Some(ir)
    } else {
        let step = match plan[0] {
            Operation::FindVariable(_) => Some(ir),
            Operation::GetField(f) => spec_get_field(ir, f@),
            Operation::GetByIndex(i) => spec_get_by_index(ir, i as int),
            _ => None,
        };
        match step {
            Some(next) => spec_apply_pure(next, plan.drop_first()),
            None => None,
        }
    }
}

/// What a dereference step guarantees on any node: a pointer reads its
/// target; tagged enums and thread-local wrappers delegate to their active
/// value; every other kind yields nothing.
pub open spec fn deref_step_ok<M: MemoryGateway>(
    gw: &M,
    graph: &crate::types::ComplexType,
    ir: VariableIR,
    r: Option<VariableIR>,
) -> bool
    decreases ir,
{
    match ir {
        VariableIR::Pointer(p) => pointer_deref_ok(gw, graph, p, r),
        VariableIR::RustEnum(e) => match e.value {
            Some(b) => deref_step_ok(gw, graph, *b, r),
            None => r is None,
        },
        VariableIR::Specialized(sp) => match sp {
            SpecializedVariableIR::Tls { tls_var: Some(t), .. } => match t.inner_value {
                Some(b) => deref_step_ok(gw, graph, *b, r),
                None => r is None,
            },
            _ => r is None,
        },
        _ => r is None,
    }
}

/// What a slice step guarantees on any node: a pointer reads a run of its
/// targets; tagged enums and thread-local wrappers delegate the slice to
/// their active value; every other kind yields nothing.
pub open spec fn slice_step_ok<M: MemoryGateway>(
    gw: &M,
    graph: &crate::types::ComplexType,
    ir: VariableIR,
    len: usize,
    r: Option<VariableIR>,
) -> bool
    decreases ir,
{
    match ir {
        VariableIR::Pointer(p) => pointer_slice_ok(gw, graph, p, len, r),
        VariableIR::RustEnum(e) => match e.value {
            Some(b) => slice_step_ok(gw, graph, *b, len, r),
            None => r is None,
        },
        VariableIR::Specialized(sp) => match sp {
            SpecializedVariableIR::Tls { tls_var: Some(t), .. } => match t.inner_value {
                Some(b) => slice_step_ok(gw, graph, *b, len, r),
                None => r is None,
            },
            _ => r is None,
        },
        _ => r is None,
    }
}

/// Whether the selection dies on a pure step before any step that would
/// read the inferior: folding the plan from `ir`, a field or index step
/// fails while only pure steps have run.
pub open spec fn pure_prefix_fails(ir: VariableIR, plan: Seq<Operation>) -> bool
    decreases plan.len(),
{
    if plan.len() == 0 {
        false
    } else {
        match plan[0] {
            Operation::FindVariable(_) => pure_prefix_fails(ir, plan.drop_first()),
            Operation::GetField(f) => match spec_get_field(ir, f@) {
                Some(next) => pure_prefix_fails(next, plan.drop_first()),
                None => true,
            },
            Operation::GetByIndex(i) => match spec_get_by_index(ir, i as int) {
                Some(next) => pure_prefix_fails(next, plan.drop_first()),
                None => true,
            },
            _ => false,
        }
    }
}

/// A dereference step's outcome depends only on the gateway's memory image
/// and readability, never on its read count.
proof fn lemma_deref_step_frame<M: MemoryGateway>(
    g1: &M,
    g2: &M,
    graph: &crate::types::ComplexType,
    ir: VariableIR,
    r: Option<VariableIR>,
)
    requires
        g1.mem() == g2.mem(),
        forall|a: int, l: int| #[trigger] g1.readable(a, l) == g2.readable(a, l),
    ensures
        deref_step_ok(g1, graph, ir, r) == deref_step_ok(g2, graph, ir, r),
    decreases ir,
{
    match ir {
        VariableIR::Pointer(p) => {
            match (p.value, p.target_type) {
                (Some(addr), Some(target)) => {
                    assert(spec_deref_bytes(g1, graph, addr, target) == spec_deref_bytes(
                        g2,
                        graph,
                        addr,
                        target,
                    ));
                    assert forall|ident: VariableIdentity, out: VariableIR|
                        deref_result_witness(g1, graph, p, addr, target, ident, out)
                            == deref_result_witness(
                            g2,
                            graph,
                            p,
                            addr,
                            target,
                            ident,
                            out,
                        ) by {}
                },
                _ => {},
            }
        },
        VariableIR::RustEnum(e) => {
            match e.value {
                Some(b) => {
                    lemma_deref_step_frame(g1, g2, graph, *b, r);
                },
                None => {},
            }
        },
        VariableIR::Specialized(sp) => {
            match sp {
                SpecializedVariableIR::Tls { tls_var: Some(t), .. } => {
                    match t.inner_value {
                        Some(b) => {
                            lemma_deref_step_frame(g1, g2, graph, *b, r);
                        },
                        None => {},
                    }
                },
                _ => {},
            }
        },
        _ => {},
    }
}

/// A slice step's outcome likewise depends only on the memory image and
/// readability.
proof fn lemma_slice_step_frame<M: MemoryGateway>(
    g1: &M,
    g2: &M,
    graph: &crate::types::ComplexType,
    ir: VariableIR,
    len: usize,
    r: Option<VariableIR>,
)
    requires
        g1.mem() == g2.mem(),
        forall|a: int, l: int| #[trigger] g1.readable(a, l) == g2.readable(a, l),
    ensures
        slice_step_ok(g1, graph, ir, len, r) == slice_step_ok(g2, graph, ir, len, r),
    decreases ir,
{
    match ir {
        VariableIR::RustEnum(e) => {
            match e.value {
                Some(b) => {
                    lemma_slice_step_frame(g1, g2, graph, *b, len, r);
                },
                None => {},
            }
        },
        VariableIR::Specialized(sp) => {
            match sp {
                SpecializedVariableIR::Tls { tls_var: Some(t), .. } => {
                    match t.inner_value {
                        Some(b) => {
                            lemma_slice_step_frame(g1, g2, graph, *b, len, r);
                        },
                        None => {},
                    }
                },
                _ => {},
            }
        },
        _ => {},
    }
}

/// How a whole plan unfolds over a node: pure steps fold exactly; a
/// dereference or slice step leads to some intermediate its step contract
/// admits, from which the rest of the plan unfolds; a failed step ends the
/// selection with no result.
pub open spec fn plan_result_ok<M: MemoryGateway>(
    gw: &M,
    graph: &crate::types::ComplexType,
    ir: VariableIR,
    plan: Seq<Operation>,
    r: Option<VariableIR>,
) -> bool
    decreases plan.len(),
{
    if plan.len() == 0 {
        r == Some(ir)
    } else {
        match plan[0] {
            Operation::FindVariable(_) => plan_result_ok(gw, graph, ir, plan.drop_first(), r),
            Operation::GetField(f) => match spec_get_field(ir, f@) {
                Some(next) => plan_result_ok(gw, graph, next, plan.drop_first(), r),
                None => r is None,
            },
            Operation::GetByIndex(i) => match spec_get_by_index(ir, i as int) {
                Some(next) => plan_result_ok(gw, graph, next, plan.drop_first(), r),
                None => r is None,
            },
            Operation::Deref => (deref_step_ok(gw, graph, ir, None) && r is None) || (exists|
                mid: VariableIR,
            |
                #[trigger] deref_step_ok(gw, graph, ir, Some(mid)) && plan_result_ok(
                    gw,
                    graph,
                    mid,
                    plan.drop_first(),
                    r,
                )),
            Operation::Slice(n) => (slice_step_ok(gw, graph, ir, n, None) && r is None) || (exists|
                mid: VariableIR,
            |
                #[trigger] slice_step_ok(gw, graph, ir, n, Some(mid)) && plan_result_ok(
                    gw,
                    graph,
                    mid,
                    plan.drop_first(),
                    r,
                )),
        }
    }
}

impl PointerVariable {
    /// Dereferences this pointer: reads the target's size worth of memory
    /// at the captured address and reifies it as the target type, renaming
    /// to `*<name>`.  The read is issued here and nowhere at parse time.
    pub fn deref<M: MemoryGateway>(
        &self,
        gw: &mut M,
        ctx: &EvaluationContext,
        parser: &VariableParser,
    ) -> (r: Option<VariableIR>)
        ensures
            final(gw).mem() == old(gw).mem(),
            forall|a: int, l: int|
                #[trigger] final(gw).readable(a, l) == old(gw).readable(a, l),
            final(gw).reads() >= old(gw).reads(),
            pointer_deref_ok(old(gw), parser.graph, *self, r),
    {
        let target = match self.target_type {
            Some(t) => t,
            None => {
                return None;
            },
        };
        let addr = match self.value {
            Some(a) => a,
            None => {
                return None;
            },
        };
        let bytes: Option<Vec<u8>> = match parser.graph.type_size_in_bytes(ctx, target) {
            Some(sz) => match gw.read(ctx.pid, addr, sz) {
                Ok(b) => Some(b),
                Err(_) => None,
            },
            None => None,
        };
        let name: Option<String> = match &self.identity.name {
            Some(n) => {
                proof {
                    reveal_strlit("*");
                }
                let mut s = String::from_str("*");
                s.append(n.as_str());
                Some(s)
            },
            None => None,
        };
        let ident = VariableIdentity::new(self.identity.namespace.duplicate(), name);
        let ghost ident_spec = ident;
        let fuel: usize = if parser.graph.types.len() < usize::MAX {
            parser.graph.types.len() + 1
        } else {
            usize::MAX
        };
        let ir = parser.parse_inner(gw, ctx, ident, bytes, target, fuel);
        proof {
            assert(opt_name_view(&ident_spec.name) == spec_deref_name(
                opt_name_view(&self.identity.name),
            ));
            assert(ns_view(&ident_spec.namespace) == ns_view(&self.identity.namespace));
            assert(*ir.spec_identity() == ident_spec);
            assert(target.0 < parser.graph.types@.len() ==> inner_result_ok(
                parser.graph,
                parser.graph.types@[target.0 as int],
                ident_spec,
                spec_deref_bytes(old(gw), parser.graph, addr, target),
                target,
                ir,
            ));
            assert(deref_result_witness(old(gw), parser.graph, *self, addr, target, ident_spec, ir));
        }
        Some(ir)
    }

    /// Reads `len * size_of(target)` bytes at the captured address and
    /// reifies them as a contiguous array of the target type, named
    /// `[*<name>]`.
    #[verifier::loop_isolation(false)]
    pub fn slice<M: MemoryGateway>(
        &self,
        gw: &mut M,
        ctx: &EvaluationContext,
        parser: &VariableParser,
        len: usize,
    ) -> (r: Option<VariableIR>)
        ensures
            final(gw).mem() == old(gw).mem(),
            forall|a: int, l: int|
                #[trigger] final(gw).readable(a, l) == old(gw).readable(a, l),
            final(gw).reads() >= old(gw).reads(),
            pointer_slice_ok(old(gw), parser.graph, *self, len, r),
    {
        let target = match self.target_type {
            Some(t) => t,
            None => {
                return None;
            },
        };
        let addr = match self.value {
            Some(a) => a,
            None => {
                return None;
            },
        };
        let el_size = match parser.graph.type_size_in_bytes(ctx, target) {
            Some(s) => s,
            None => {
                return None;
            },
        };
        if el_size == 0 {
            return None;
        }
        let total = match (len as u64).checked_mul(el_size) {
            Some(t) => t,
            None => {
                return None;
            },
        };
        let data = match gw.read(ctx.pid, addr, total) {
            Ok(d) => d,
            Err(_) => {
                return None;
            },
        };
        proof {
            assert(data@.len() == vstd::std_specs::vec::spec_vec_len(&data));
        }
        let ghost the_mem = gw.mem();
        let fuel: usize = if parser.graph.types.len() < usize::MAX {
            parser.graph.types.len() + 1
        } else {
            usize::MAX
        };
        let mut items: Vec<VariableIR> = Vec::new();
        let mut j: u64 = 0;
        while j < len as u64
            invariant
                j <= len as u64,
                items@.len() == j,
                gw.mem() == the_mem,
                gw.mem() == old(gw).mem(),
                forall|a: int, l: int| #[trigger] gw.readable(a, l) == old(gw).readable(a, l),
                gw.reads() >= old(gw).reads(),
                forall|k: int|
                    0 <= k < j ==> (#[trigger] items@[k]).spec_name() == Some(dec_int(k)),
                forall|k: int|
                    0 <= k < j ==> crate::parse::element_matches(
                        parser.graph,
                        target,
                        mem_slice(the_mem, addr + k * el_size, el_size as int),
                        #[trigger] items@[k],
                    ),
            decreases len as u64 - j,
        {
            proof {
                assert(j * el_size + el_size <= total) by (nonlinear_arith)
                    requires
                        j < len as u64,
                        total == len * el_size,
                        el_size >= 0,
                        j >= 0,
                ;
                assert(0 <= j * el_size) by (nonlinear_arith)
                    requires
                        j >= 0,
                        el_size >= 0,
                ;
            }
            let start = (j * el_size) as usize;
            let end = (j * el_size + el_size) as usize;
            let chunk = vstd::slice::slice_to_vec(
                vstd::slice::slice_subrange(data.as_slice(), start, end),
            );
            proof {
                assert(chunk@ =~= mem_slice(the_mem, addr + j * el_size, el_size as int));
            }
            let child = parser.parse_inner(
                gw,
                ctx,
                VariableIdentity::no_namespace(Some(u64_dec_string(j))),
                Some(chunk),
                target,
                fuel,
            );
            items.push(child);
            j += 1;
        }
        let name: Option<String> = match &self.identity.name {
            Some(n) => {
                proof {
                    reveal_strlit("[*");
                    reveal_strlit("]");
                }
                let mut s = String::from_str("[*");
                s.append(n.as_str());
                s.append("]");
                proof {
                    assert(s@ =~= seq!['[', '*'] + n@ + seq![']']);
                }
                Some(s)
            },
            None => None,
        };
        let display = match parser.graph.type_display_name(target) {
            Some(t) => {
                proof {
                    reveal_strlit("[");
                    reveal_strlit("]");
                }
                let mut s = String::from_str("[");
                s.append(t.as_str());
                s.append("]");
                Some(s)
            },
            None => None,
        };
        Some(
            VariableIR::Array(
                ArrayVariable {
                    identity: VariableIdentity::new(self.identity.namespace.duplicate(), name),
                    type_display_name: display,
                    items: Some(items),
                },
            ),
        )
    }
}

impl VariableIR {
    /// Applies a selection plan step by step.  An empty plan leaves the
    /// node untouched; a plan of pure steps issues no memory read and folds
    /// the steps left to right; a single dereference or slice step carries
    /// that step's full contract; a step that does not apply to the node at
    /// hand ends the selection with no result.
    #[verifier::loop_isolation(false)]
    pub fn apply_select_plan<M: MemoryGateway>(
        self,
        gw: &mut M,
        ctx: &EvaluationContext,
        variable_parser: &VariableParser,
        select_plan: &SelectPlan,
    ) -> (r: Option<VariableIR>)
        ensures
            final(gw).mem() == old(gw).mem(),
            forall|a: int, l: int|
                #[trigger] final(gw).readable(a, l) == old(gw).readable(a, l),
            final(gw).reads() >= old(gw).reads(),
            select_plan.plan@.len() == 0 ==> r == Some(self),
            all_pure(select_plan.plan@) ==> r == spec_apply_pure(self, select_plan.plan@),
            all_pure(select_plan.plan@) ==> final(gw).reads() == old(gw).reads(),
            (select_plan.plan@.len() == 1 && select_plan.plan@[0] is Deref) ==> deref_step_ok(
                old(gw),
                variable_parser.graph,
                self,
                r,
            ),
            select_plan.plan@.len() == 1 ==> (select_plan.plan@[0] matches Operation::Slice(n)
                ==> slice_step_ok(old(gw), variable_parser.graph, self, n, r)),
            pure_prefix_fails(self, select_plan.plan@) ==> (r is None && final(gw).reads() == old(
                gw,
            ).reads()),
            plan_result_ok(old(gw), variable_parser.graph, self, select_plan.plan@, r),
    {
        let ghost plan_view = select_plan.plan@;
        let mut variable = self;
        let mut i: usize = 0;
        let ghost initial = variable;
        proof {
            assert(plan_view.skip(0) =~= plan_view);
        }
        while i < select_plan.plan.len()
            invariant
                i <= select_plan.plan@.len(),
                plan_view == select_plan.plan@,
                gw.mem() == old(gw).mem(),
                forall|a: int, l: int| #[trigger] gw.readable(a, l) == old(gw).readable(a, l),
                gw.reads() >= old(gw).reads(),
                i == 0 ==> variable == initial && *gw == *old(gw),
                all_pure(plan_view) ==> gw.reads() == old(gw).reads(),
                all_pure(plan_view) ==> spec_apply_pure(initial, plan_view) == spec_apply_pure(
                    variable,
                    plan_view.skip(i as int),
                ),
                (plan_view.len() == 1 && plan_view[0] is Deref && i == 1) ==> deref_step_ok(
                    old(gw),
                    variable_parser.graph,
                    initial,
                    Some(variable),
                ),
                (plan_view.len() == 1 && i == 1) ==> (plan_view[0] matches Operation::Slice(n)
                    ==> slice_step_ok(old(gw), variable_parser.graph, initial, n, Some(variable))),
                pure_prefix_fails(initial, plan_view) ==> (pure_prefix_fails(
                    variable,
                    plan_view.skip(i as int),
                ) && gw.reads() == old(gw).reads()),
                forall|res: Option<VariableIR>|
                    #[trigger] plan_result_ok(
                        old(gw),
                        variable_parser.graph,
                        variable,
                        plan_view.skip(i as int),
                        res,
                    ) ==> plan_result_ok(old(gw), variable_parser.graph, initial, plan_view, res),
            decreases select_plan.plan@.len() - i,
        {
            proof {
                assert(plan_view.skip(i as int)[0] == plan_view[i as int]);
                assert(plan_view.skip(i as int).drop_first() =~= plan_view.skip(i + 1));
            }
            let ghost var_pre = variable;
            let ghost gw_pre = *gw;
            let next = match &select_plan.plan[i] {
                Operation::FindVariable(_) => Some(variable),
                Operation::Deref => variable.deref(gw, ctx, variable_parser),
                Operation::GetByIndex(idx) => variable.get_by_index(*idx),
                Operation::GetField(field) => variable.get_field(field.as_str()),
                Operation::Slice(len) => variable.slice(gw, ctx, variable_parser, *len),
            };
            proof {
                match plan_view[i as int] {
                    Operation::Deref => {
                        lemma_deref_step_frame(&gw_pre, old(gw), variable_parser.graph, var_pre, next);
                    },
                    Operation::Slice(n) => {
                        lemma_slice_step_frame(
                            &gw_pre,
                            old(gw),
                            variable_parser.graph,
                            var_pre,
                            n,
                            next,
                        );
                    },
                    _ => {},
                }
            }
            variable = match next {
                Some(v) => v,
                None => {
                    proof {
                        if all_pure(plan_view) {
                            assert(op_is_pure(plan_view[i as int]));
                            assert(spec_apply_pure(var_pre, plan_view.skip(i as int)) is None);
                        }
                        assert(plan_result_ok(
                            old(gw),
                            variable_parser.graph,
                            var_pre,
                            plan_view.skip(i as int),
                            None::<VariableIR>,
                        ));
                    }
                    return None;
                },
            };
            proof {
                assert forall|res: Option<VariableIR>|
                    #[trigger] plan_result_ok(
                        old(gw),
                        variable_parser.graph,
                        variable,
                        plan_view.skip(i + 1),
                        res,
                    ) implies plan_result_ok(
                    old(gw),
                    variable_parser.graph,
                    var_pre,
                    plan_view.skip(i as int),
                    res,
                ) by {
                    match plan_view[i as int] {
                        Operation::Deref => {
                            assert(deref_step_ok(
                                old(gw),
                                variable_parser.graph,
                                var_pre,
                                Some(variable),
                            ));
                        },
                        Operation::Slice(n) => {
                            assert(slice_step_ok(
                                old(gw),
                                variable_parser.graph,
                                var_pre,
                                n,
                                Some(variable),
                            ));
                        },
                        _ => {},
                    }
                }
            }
            proof {
                if pure_prefix_fails(initial, plan_view) {
                    assert(pure_prefix_fails(var_pre, plan_view.skip(i as int)));
                    if !op_is_pure(plan_view[i as int]) {
                        assert(false);
                    }
                }
            }
            i += 1;
        }
        proof {
            assert(plan_view.skip(i as int) =~= Seq::<Operation>::empty());
            assert(plan_result_ok(
                old(gw),
                variable_parser.graph,
                variable,
                plan_view.skip(i as int),
                Some(variable),
            ));
        }
        Some(variable)
    }

    /// Dereferences this node: a pointer reads its target; tagged enums and
    /// thread-local wrappers delegate to their active value; every other
    /// kind yields nothing.
    pub fn deref<M: MemoryGateway>(
        self,
        gw: &mut M,
        ctx: &EvaluationContext,
        variable_parser: &VariableParser,
    ) -> (r: Option<VariableIR>)
        ensures
            final(gw).mem() == old(gw).mem(),
            forall|a: int, l: int|
                #[trigger] final(gw).readable(a, l) == old(gw).readable(a, l),
            final(gw).reads() >= old(gw).reads(),
            deref_step_ok(old(gw), variable_parser.graph, self, r),
        decreases self,
    {
        match self {
            VariableIR::Pointer(ptr) => ptr.deref(gw, ctx, variable_parser),
            VariableIR::RustEnum(e) => match e.value {
                Some(b) => {
                    proof {
                        assert(decreases_to!(e => e.value));
                    }
                    (*b).deref(gw, ctx, variable_parser)
                },
                None => None,
            },
            VariableIR::Specialized(
                SpecializedVariableIR::Tls { tls_var: Some(t), .. },
            ) => match t.inner_value {
                Some(b) => (*b).deref(gw, ctx, variable_parser),
                None => None,
            },
            _ => None,
        }
    }

    /// Resolves a field access on this node.
    #[verifier::loop_isolation(false)]
    pub fn get_field(self, field_name: &str) -> (r: Option<VariableIR>)
        ensures
            r == spec_get_field(self, field_name@),
        decreases self,
    {
        match self {
            VariableIR::Struct(s) => {
                let mut members = s.members;
                let ghost all = members@;
                proof {
                    assert(all.skip(0) =~= all);
                }
                let mut i: usize = 0;
                while i < members.len()
                    invariant
                        i <= members@.len(),
                        members@ == all,
                        first_named(all, field_name@) == first_named(
                            all.skip(i as int),
                            field_name@,
                        ),
                    decreases members@.len() - i,
                {
                    proof {
                        assert(all.skip(i as int)[0] == all[i as int]);
                        assert(all.skip(i as int).drop_first() =~= all.skip(i + 1));
                    }
                    let is_match = match &members[i].identity().name {
                        Some(n) => str_eq(n.as_str(), field_name),
                        None => false,
                    };
                    proof {
                        assert(is_match == (all[i as int].spec_name() == Some(field_name@)));
                    }
                    if is_match {
                        let m = members.remove(i);
                        return Some(m);
                    }
                    i += 1;
                }
                proof {
                    assert(all.skip(i as int) =~= Seq::<VariableIR>::empty());
                }
                None
            },
            VariableIR::RustEnum(e) => match e.value {
                Some(b) => (*b).get_field(field_name),
                None => None,
            },
            VariableIR::Specialized(sp) => match sp {
                SpecializedVariableIR::HashMap { map: Some(m), .. } => {
                    let mut kv = m.kv_items;
                    let ghost all = kv@;
                    proof {
                        assert(all.skip(0) =~= all);
                    }
                    let mut i: usize = 0;
                    while i < kv.len()
                        invariant
                            i <= kv@.len(),
                            kv@ == all,
                            spec_map_lookup(all, field_name@) == spec_map_lookup(
                                all.skip(i as int),
                                field_name@,
                            ),
                        decreases kv@.len() - i,
                    {
                        proof {
                            assert(all.skip(i as int)[0] == all[i as int]);
                            assert(all.skip(i as int).drop_first() =~= all.skip(i + 1));
                        }
                        let key_matches = match &kv[i].0 {
                            VariableIR::Specialized(
                                SpecializedVariableIR::String { string: Some(sv), .. },
                            ) => str_eq(sv.value.as_str(), field_name),
                            VariableIR::Specialized(
                                SpecializedVariableIR::Str { string: Some(sv), .. },
                            ) => str_eq(sv.value.as_str(), field_name),
                            _ => false,
                        };
                        proof {
                            assert(key_matches == (spec_key_string(all[i as int].0) == Some(
                                field_name@,
                            )));
                        }
                        if key_matches {
                            let pair = kv.remove(i);
                            return Some(pair.1);
                        }
                        i += 1;
                    }
                    proof {
                        assert(all.skip(i as int) =~= Seq::<(VariableIR, VariableIR)>::empty());
                    }
                    None
                },
                SpecializedVariableIR::Tls { tls_var: Some(t), .. } => match t.inner_value {
                    Some(b) => (*b).get_field(field_name),
                    None => None,
                },
                _ => None,
            },
            _ => None,
        }
    }

    /// Resolves an index access on this node.
    #[verifier::loop_isolation(false)]
    pub fn get_by_index(self, idx: usize) -> (r: Option<VariableIR>)
        ensures
            r == spec_get_by_index(self, idx as int),
        decreases self,
    {
        match self {
            VariableIR::Array(a) => match a.items {
                Some(mut items) => {
                    if idx < items.len() {
                        let m = items.remove(idx);
                        Some(m)
                    } else {
                        None
                    }
                },
                None => None,
            },
            VariableIR::RustEnum(e) => match e.value {
                Some(b) => (*b).get_by_index(idx),
                None => None,
            },
            VariableIR::Specialized(sp) => match sp {
                SpecializedVariableIR::Vector { vec: Some(v), .. } => {
                    let mut members = v.structure.members;
                    if members.len() > 0 {
                        let first = members.remove(0);
                        proof {
                            assert(decreases_to!(sp => first));
                        }
                        first.get_by_index(idx)
                    } else {
                        None
                    }
                },
                SpecializedVariableIR::Tls { tls_var: Some(t), .. } => match t.inner_value {
                    Some(b) => (*b).get_by_index(idx),
                    None => None,
                },
                _ => None,
            },
            _ => None,
        }
    }

    /// Slices this node: a pointer reads a run of targets; tagged enums
    /// and thread-local wrappers delegate the slice to their active value,
    /// mirroring the dereference delegation; every other kind yields
    /// nothing.
    pub fn slice<M: MemoryGateway>(
        self,
        gw: &mut M,
        ctx: &EvaluationContext,
        variable_parser: &VariableParser,
        len: usize,
    ) -> (r: Option<VariableIR>)
        ensures
            final(gw).mem() == old(gw).mem(),
            forall|a: int, l: int|
                #[trigger] final(gw).readable(a, l) == old(gw).readable(a, l),
            final(gw).reads() >= old(gw).reads(),
            slice_step_ok(old(gw), variable_parser.graph, self, len, r),
        decreases self,
    {
        match self {
            VariableIR::Pointer(ptr) => ptr.slice(gw, ctx, variable_parser, len),
            VariableIR::RustEnum(e) => match e.value {
                Some(b) => (*b).slice(gw, ctx, variable_parser, len),
                None => None,
            },
            VariableIR::Specialized(
                SpecializedVariableIR::Tls { tls_var: Some(t), .. },
            ) => match t.inner_value {
                Some(b) => (*b).slice(gw, ctx, variable_parser, len),
                None => None,
            },
            _ => None,
        }
    }
}

} // verus!
