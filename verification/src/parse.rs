use vstd::prelude::*;
use crate::buffer::{bytes_seq, bytes_to_vec};
use crate::ident::{ns_view, opt_name_view, VariableIdentity};
use crate::ir::{
    ArrayVariable, CEnumVariable, PointerVariable, RustEnumVariable, ScalarVariable,
    SpecializedVariableIR, StructVariable, VariableIR,
};
use crate::memory::MemoryGateway;
use crate::numfmt::{dec_int, i64_dec_string};
use crate::scalar::{decode_scalar, le_value, spec_decode_scalar, spec_try_as_number};
use crate::types::{
    opt_view, spec_member_bytes, spec_size_fuel, spec_size_in_bytes, ArrayType, ComplexType,
    EvaluationContext, ScalarType, StructureMember, TypeDeclaration, TypeIdentity,
};

verus! {

/// The address captured from a pointer's byte buffer: its little-endian
/// word value, present exactly when the buffer holds one word.
pub open spec fn spec_pointer_value(bytes: Option<Seq<u8>>) -> Option<u64> {
    match bytes {
        Some(b) => if b.len() == 8 {
            Some(le_value(b) as u64)
        } else {
            None
        },
        None => None,
    }
}

/// The display name of a pointer type: its declared name when it has one,
/// otherwise a star followed by the target type's name.
pub open spec fn spec_pointer_display(
    declared: Option<Seq<char>>,
    target: Option<Seq<char>>,
) -> Option<Seq<char>> {
    match declared {
        Some(n) => Some(n),
        None => match target {
            Some(t) => Some(seq!['*'] + t),
            None => None,
        },
    }
}

/// The members of a structure declaration that carry a type reference; a
/// member without one is skipped, and the structure is still produced.
pub open spec fn spec_kept_members(s: Seq<StructureMember>) -> Seq<StructureMember>
    decreases s.len(),
{
    if s.len() == 0 {
        Seq::empty()
    } else {
        let rest = spec_kept_members(s.drop_first());
        if s[0].type_ref is Some {
            seq![s[0]] + rest
        } else {
            rest
        }
    }
}

pub proof fn lemma_kept_members_unfold_last(s: Seq<StructureMember>)
    requires
        s.len() > 0,
    ensures
        spec_kept_members(s) == spec_kept_members(s.take(s.len() - 1)) + if s[s.len()
            - 1].type_ref is Some {
            seq![s[s.len() - 1]]
        } else {
            Seq::<StructureMember>::empty()
        },
    decreases s.len(),
{
    let last = s[s.len() - 1];
    let front = s.take(s.len() - 1);
    if s.len() == 1 {
        assert(s.drop_first() =~= Seq::<StructureMember>::empty());
        assert(front =~= Seq::<StructureMember>::empty());
        if last.type_ref is Some {
            assert(spec_kept_members(s) =~= seq![last]);
        }
    } else {
        lemma_kept_members_unfold_last(s.drop_first());
        assert(s.drop_first().take(s.drop_first().len() - 1) =~= front.drop_first());
        assert(s.drop_first()[s.drop_first().len() - 1] == last);
        if s[0].type_ref is Some {
            assert(spec_kept_members(s) == seq![s[0]] + spec_kept_members(s.drop_first()));
            assert(front[0] == s[0]);
            assert(spec_kept_members(front) == seq![s[0]] + spec_kept_members(front.drop_first()));
            if last.type_ref is Some {
                assert(seq![s[0]] + (spec_kept_members(front.drop_first()) + seq![last]) =~= (
                seq![s[0]] + spec_kept_members(front.drop_first())) + seq![last]);
            } else {
                assert(spec_kept_members(s) == spec_kept_members(front) + Seq::<
                    StructureMember,
                >::empty());
            }
        } else {
            assert(front[0] == s[0]);
        }
    }
}

/// A node standing in for a value whose reification could not proceed.
pub open spec fn is_absent_scalar(ir: VariableIR) -> bool {
    ir matches VariableIR::Scalar(sv) && sv.value is None
}

/// What a reified child guarantees relative to its declared type: a scalar
/// or pointer child carries exactly the value decoded from its bytes, and
/// a composite child has the kind its declaration dictates — a structure
/// arriving as a plain structure or as the specialized container the
/// recognition rules pick — unless the recursion budget ran out and left
/// an absent scalar in its place.
pub open spec fn child_shape_ok(
    graph: &ComplexType,
    tr: TypeIdentity,
    b: Option<Seq<u8>>,
    ir: VariableIR,
) -> bool {
    tr.0 < graph.types@.len() ==> match graph.types@[tr.0 as int] {
        TypeDeclaration::Scalar(st) => ir matches VariableIR::Scalar(sv) && sv.value
            == spec_decode_scalar(st.encoding, st.byte_size, b),
        TypeDeclaration::Pointer { target_type, .. } => ir matches VariableIR::Pointer(pv)
            && pv.value == spec_pointer_value(b) && pv.target_type == target_type,
        TypeDeclaration::Array(_) => ir matches VariableIR::Array(_) || is_absent_scalar(ir),
        TypeDeclaration::CStyleEnum { .. } => ir matches VariableIR::CEnum(_) || is_absent_scalar(
            ir,
        ),
        TypeDeclaration::RustEnum { .. } => ir matches VariableIR::RustEnum(_)
            || is_absent_scalar(ir),
        TypeDeclaration::Union { .. } => ir matches VariableIR::Struct(_) || is_absent_scalar(ir),
        TypeDeclaration::Structure { name, namespaces, .. } => {
            let kind = crate::specialization::spec_recognize(opt_view(&name), &namespaces);
            ||| is_absent_scalar(ir)
            ||| (kind is Plain && ir matches VariableIR::Struct(_))
            ||| (!(kind is Plain) && (ir matches VariableIR::Specialized(sp)
                && crate::specialization::variant_kind(sp) == kind))
        },
    }
}

/// What a reified structure member guarantees relative to its declaration:
/// it carries the member's name as a synthetic identity, and its shape and
/// decoded value follow its declared type and its bytes inside the parent
/// buffer.
pub open spec fn member_matches(
    graph: &ComplexType,
    m: StructureMember,
    parent: Option<Seq<u8>>,
    ir: VariableIR,
) -> bool {
    &&& ir.spec_name() == opt_view(&m.name)
    &&& ns_view(&ir.spec_identity().namespace) == Seq::<Seq<char>>::empty()
    &&& (match m.type_ref {
        Some(tr) => child_shape_ok(graph, tr, spec_member_bytes(graph, &m, parent), ir),
        None => false,
    })
}

/// The integer read from a scalar-typed discriminant buffer.
pub open spec fn spec_scalar_discr(
    graph: &ComplexType,
    id: Option<TypeIdentity>,
    bytes: Option<Seq<u8>>,
) -> Option<i64> {
    match id {
        None => None,
        Some(id) => if id.0 < graph.types@.len() {
            match graph.types@[id.0 as int] {
                TypeDeclaration::Scalar(st) => spec_try_as_number(
                    spec_decode_scalar(st.encoding, st.byte_size, bytes),
                ),
                _ => None,
            }
        } else {
            None
        },
    }
}

/// The integer read from a tagged enum's discriminant member.
pub open spec fn spec_member_discr(
    graph: &ComplexType,
    m: Option<StructureMember>,
    bytes: Option<Seq<u8>>,
) -> Option<i64> {
    match m {
        None => None,
        Some(m) => spec_scalar_discr(graph, m.type_ref, spec_member_bytes(graph, &m, bytes)),
    }
}

/// The enumerator name a C-style enumeration resolves a discriminant to:
/// the first pair carrying that value.
pub open spec fn spec_enum_name_lookup(pairs: Seq<(i64, String)>, v: i64) -> Option<Seq<char>>
    decreases pairs.len(),
{
    if pairs.len() == 0 {
        None
    } else if pairs[0].0 == v {
        Some(pairs[0].1@)
    } else {
        spec_enum_name_lookup(pairs.drop_first(), v)
    }
}

/// The variant member a tagged enum resolves a discriminant to: the first
/// pair keyed by the discriminant when one is known and registered,
/// otherwise the first default (unkeyed) pair.
pub open spec fn spec_variant_lookup(
    pairs: Seq<(Option<i64>, StructureMember)>,
    v: Option<i64>,
) -> Option<StructureMember> {
    match v {
        Some(n) => match spec_keyed_lookup(pairs, n) {
            Some(m) => Some(m),
            None => spec_default_lookup(pairs),
        },
        None => spec_default_lookup(pairs),
    }
}

pub open spec fn spec_keyed_lookup(pairs: Seq<(Option<i64>, StructureMember)>, n: i64) -> Option<
    StructureMember,
>
    decreases pairs.len(),
{
    if pairs.len() == 0 {
        None
    } else if pairs[0].0 == Some(n) {
        Some(pairs[0].1)
    } else {
        spec_keyed_lookup(pairs.drop_first(), n)
    }
}

pub open spec fn spec_default_lookup(pairs: Seq<(Option<i64>, StructureMember)>) -> Option<
    StructureMember,
>
    decreases pairs.len(),
{
    if pairs.len() == 0 {
        None
    } else if pairs[0].0 is None {
        Some(pairs[0].1)
    } else {
        spec_default_lookup(pairs.drop_first())
    }
}

/// The recursive reifier: parses byte buffers against the type graph.
pub struct VariableParser<'a> {
    pub graph: &'a ComplexType,
}

impl<'a> VariableParser<'a> {
    pub fn new(graph: &'a ComplexType) -> (r: Self)
        ensures
            r.graph == graph,
    {
        VariableParser { graph }
    }

    /// Decodes a scalar leaf: the value follows the decoder's decision
    /// table, the display name is the base type's declared name.
    fn parse_scalar(
        &self,
        identity: VariableIdentity,
        value: Option<Vec<u8>>,
        scalar_type: &ScalarType,
    ) -> (r: ScalarVariable)
        ensures
            r.identity == identity,
            opt_view(&r.type_display_name) == opt_view(&scalar_type.name),
            r.value == spec_decode_scalar(
                scalar_type.encoding,
                scalar_type.byte_size,
                match value {
                    Some(v) => Some(v@),
                    None => None,
                },
            ),
    {
        let decoded = decode_scalar(scalar_type.encoding, scalar_type.byte_size, value.as_ref());
        let name = match &scalar_type.name {
            Some(n) => Some(String::from_str(n.as_str())),
            None => None,
        };
        ScalarVariable { identity, type_display_name: name, value: decoded }
    }

    /// Captures a pointer: decodes the address word and keeps the target
    /// type for a later dereference.  The target is not read.
    fn parse_pointer(
        &self,
        identity: VariableIdentity,
        value: Option<Vec<u8>>,
        declared_name: Option<String>,
        target_type: Option<TypeIdentity>,
    ) -> (r: PointerVariable)
        ensures
            r.identity == identity,
            r.target_type == target_type,
            r.value == spec_pointer_value(
                match value {
                    Some(v) => Some(v@),
                    None => None,
                },
            ),
            opt_view(&r.type_display_name) == spec_pointer_display(
                opt_view(&declared_name),
                match target_type {
                    Some(t) => self.graph.spec_type_name(t),
                    None => None,
                },
            ),
    {
        let addr: Option<u64> = match &value {
            Some(b) => if b.len() == 8 {
                proof {
                    crate::scalar::lemma_le_value_bound(b@);
                    crate::scalar::lemma_pow256_values();
                }
                Some(crate::scalar::le_u128(b) as u64)
            } else {
                None
            },
            None => None,
        };
        let display = match declared_name {
            Some(n) => Some(n),
            None => {
                let target_name = match target_type {
                    Some(t) => self.graph.type_display_name(t),
                    None => None,
                };
                match target_name {
                    Some(t) => {
                        proof {
                            reveal_strlit("*");
                        }
                        let mut s = String::from_str("*");
                        s.append(t.as_str());
                        Some(s)
                    },
                    None => None,
                }
            },
        };
        PointerVariable { identity, type_display_name: display, value: addr, target_type }
    }

    /// Reifies the members of a structure or union: one child per member
    /// that carries a type reference, in declaration order, each located by
    /// its offset inside the parent buffer.
    #[verifier::loop_isolation(false)]
    pub(crate) fn parse_struct_variable<M: MemoryGateway>(
        &self,
        gw: &mut M,
        ctx: &EvaluationContext,
        identity: VariableIdentity,
        value: Option<&Vec<u8>>,
        display: Option<String>,
        type_params: Vec<(String, Option<TypeIdentity>)>,
        members: &Vec<StructureMember>,
        fuel: usize,
    ) -> (r: StructVariable)
        requires
            1 <= fuel,
        ensures
            final(gw).mem() == old(gw).mem(),
            forall|a: int, l: int|
                #[trigger] final(gw).readable(a, l) == old(gw).readable(a, l),
            final(gw).reads() >= old(gw).reads(),
            r.identity == identity,
            r.type_display_name == display,
            r.type_params == type_params,
            r.members@.len() == spec_kept_members(members@).len(),
            forall|j: int|
                0 <= j < r.members@.len() ==> member_matches(
                    self.graph,
                    spec_kept_members(members@)[j],
                    match value {
                        Some(v) => Some(v@),
                        None => None,
                    },
                    #[trigger] r.members@[j],
                ),
        decreases fuel, 2int,
    {
        let ghost parent_view: Option<Seq<u8>> = match value {
            Some(v) => Some(v@),
            None => None,
        };
        let mut children: Vec<VariableIR> = Vec::new();
        let mut i: usize = 0;
        proof {
            assert(members@.take(0) =~= Seq::<StructureMember>::empty());
        }
        while i < members.len()
            invariant
                i <= members@.len(),
                gw.mem() == old(gw).mem(),
                forall|a: int, l: int| #[trigger] gw.readable(a, l) == old(gw).readable(a, l),
                gw.reads() >= old(gw).reads(),
                children@.len() == spec_kept_members(members@.take(i as int)).len(),
                forall|j: int|
                    0 <= j < children@.len() ==> member_matches(
                        self.graph,
                        spec_kept_members(members@.take(i as int))[j],
                        parent_view,
                        #[trigger] children@[j],
                    ),
            decreases members@.len() - i,
        {
            let ghost before = spec_kept_members(members@.take(i as int));
            proof {
                lemma_kept_members_unfold_last(members@.take(i + 1));
                assert(members@.take(i + 1).take(i as int) =~= members@.take(i as int));
                assert(members@.take(i + 1)[i as int] == members@[i as int]);
            }
            match self.parse_struct_member(gw, ctx, &members[i], value, fuel) {
                Some(child) => {
                    children.push(child);
                    proof {
                        let after = spec_kept_members(members@.take(i + 1));
                        assert(after =~= before + seq![members@[i as int]]);
                        assert(after[after.len() - 1] == members@[i as int]);
                        assert(children@[children@.len() - 1] == child);
                    }
                },
                None => {
                    proof {
                        assert(spec_kept_members(members@.take(i + 1)) =~= before);
                    }
                },
            }
            i += 1;
        }
        proof {
            assert(members@.take(members@.len() as int) =~= members@);
        }
        StructVariable { identity, type_display_name: display, members: children, type_params }
    }

    /// Reifies one structure member against the parent buffer.  A member
    /// without a type reference is skipped; one whose bytes cannot be
    /// located is reified with an absent value.
    pub(crate) fn parse_struct_member<M: MemoryGateway>(
        &self,
        gw: &mut M,
        ctx: &EvaluationContext,
        member: &StructureMember,
        parent_value: Option<&Vec<u8>>,
        fuel: usize,
    ) -> (r: Option<VariableIR>)
        requires
            1 <= fuel,
        ensures
            final(gw).mem() == old(gw).mem(),
            forall|a: int, l: int|
                #[trigger] final(gw).readable(a, l) == old(gw).readable(a, l),
            final(gw).reads() >= old(gw).reads(),
            r is Some <==> member.type_ref is Some,
            r matches Some(ir) ==> member_matches(
                self.graph,
                *member,
                match parent_value {
                    Some(v) => Some(v@),
                    None => None,
                },
                ir,
            ),
        decreases fuel, 1int,
    {
        let type_ref = match member.type_ref {
            Some(t) => t,
            None => {
                return None;
            },
        };
        let member_val = self.graph.member_bytes(ctx, member, parent_value);
        let name = match &member.name {
            Some(n) => Some(String::from_str(n.as_str())),
            None => None,
        };
        let child = self.parse_inner(
            gw,
            ctx,
            VariableIdentity::no_namespace(name),
            member_val,
            type_ref,
            fuel - 1,
        );
        Some(child)
    }

    /// Reifies an array: evaluated bounds `[lo, hi)` produce `hi - lo`
    /// items, each sliced from the buffer at the element's size and named
    /// by its absolute index.
    #[verifier::loop_isolation(false)]
    fn parse_array<M: MemoryGateway>(
        &self,
        gw: &mut M,
        ctx: &EvaluationContext,
        identity: VariableIdentity,
        value: Option<Vec<u8>>,
        display: Option<String>,
        array_decl: &ArrayType,
        fuel: usize,
    ) -> (r: ArrayVariable)
        requires
            1 <= fuel,
        ensures
            final(gw).mem() == old(gw).mem(),
            forall|a: int, l: int|
                #[trigger] final(gw).readable(a, l) == old(gw).readable(a, l),
            final(gw).reads() >= old(gw).reads(),
            r.identity == identity,
            r.type_display_name == display,
            r.items is Some <==> spec_array_elements(
                self.graph,
                *array_decl,
                match value {
                    Some(v) => Some(v@),
                    None => None,
                },
            ) is Some,
            r.items matches Some(items) ==> array_items_ok(
                self.graph,
                *array_decl,
                match value {
                    Some(v) => Some(v@),
                    None => None,
                },
                items@,
            ),
        decreases fuel, 2int,
    {
        let (lo, hi) = match array_decl.bounds {
            Some(b) => b,
            None => {
                return ArrayVariable { identity, type_display_name: display, items: None };
            },
        };
        let el_type = match array_decl.element_type {
            Some(t) => t,
            None => {
                return ArrayVariable { identity, type_display_name: display, items: None };
            },
        };
        let el_size = match self.graph.type_size_in_bytes(ctx, el_type) {
            Some(s) => s,
            None => {
                return ArrayVariable { identity, type_display_name: display, items: None };
            },
        };
        let bytes = match value {
            Some(b) => b,
            None => {
                return ArrayVariable { identity, type_display_name: display, items: None };
            },
        };
        if lo > hi {
            return ArrayVariable { identity, type_display_name: display, items: None };
        }
        let count: u64 = ((hi as i128) - (lo as i128)) as u64;
        let total: u64 = match count.checked_mul(el_size) {
            Some(t) => t,
            None => {
                return ArrayVariable { identity, type_display_name: display, items: None };
            },
        };
        if total > bytes.len() as u64 {
            return ArrayVariable { identity, type_display_name: display, items: None };
        }
        let ghost chunks = spec_array_elements(
            self.graph,
            *array_decl,
            Some(bytes@),
        )->Some_0;
        let mut items: Vec<VariableIR> = Vec::new();
        let mut j: u64 = 0;
        let mut idx: i64 = lo;
        while j < count
            invariant
                j <= count,
                idx == lo + j,
                count == hi - lo,
                el_size == spec_size_in_bytes(
                    self.graph,
                    el_type,
                    spec_size_fuel(self.graph),
                )->Some_0,
                count * el_size <= bytes@.len(),
                gw.mem() == old(gw).mem(),
                forall|a: int, l: int| #[trigger] gw.readable(a, l) == old(gw).readable(a, l),
                gw.reads() >= old(gw).reads(),
                items@.len() == j,
                chunks.len() == count,
                forall|k: int|
                    0 <= k < count ==> #[trigger] chunks[k] == bytes@.subrange(
                        k * el_size,
                        k * el_size + el_size,
                    ),
                forall|k: int|
                    0 <= k < j ==> (#[trigger] items@[k]).spec_name() == Some(dec_int(lo + k)),
                forall|k: int|
                    0 <= k < j ==> element_matches(
                        self.graph,
                        el_type,
                        chunks[k],
                        #[trigger] items@[k],
                    ),
            decreases count - j,
        {
            proof {
                assert(j * el_size + el_size <= count * el_size) by (nonlinear_arith)
                    requires
                        j < count,
                        el_size >= 0,
                        j >= 0,
                ;
                assert(0 <= j * el_size) by (nonlinear_arith)
                    requires
                        j >= 0,
                        el_size >= 0,
                ;
            }
            let start = (j * el_size) as usize;
            let end = (j * el_size + el_size) as usize;
            let chunk = vstd::slice::slice_to_vec(
                vstd::slice::slice_subrange(bytes.as_slice(), start, end),
            );
            let child = self.parse_inner(
                gw,
                ctx,
                VariableIdentity::no_namespace(Some(i64_dec_string(idx))),
                Some(chunk),
                el_type,
                fuel - 1,
            );
            items.push(child);
            j += 1;
            if idx < i64::MAX {
                idx += 1;
            }
        }
        ArrayVariable { identity, type_display_name: display, items: Some(items) }
    }

    /// Resolves a C-style enumeration: the discriminant bytes are decoded
    /// as the discriminant type's scalar and looked up among the
    /// enumerators.
    fn parse_c_enum(
        &self,
        identity: VariableIdentity,
        value: Option<Vec<u8>>,
        display: Option<String>,
        discr_type: Option<TypeIdentity>,
        enumerators: &Vec<(i64, String)>,
    ) -> (r: CEnumVariable)
        ensures
            r.identity == identity,
            r.type_display_name == display,
            opt_view(&r.value) == match spec_scalar_discr(
                self.graph,
                discr_type,
                match value {
                    Some(v) => Some(v@),
                    None => None,
                },
            ) {
                Some(n) => spec_enum_name_lookup(enumerators@, n),
                None => None,
            },
    {
        let discr = self.read_scalar_discr(discr_type, value.as_ref());
        let resolved = match discr {
            Some(n) => self.lookup_enum_name(enumerators, n),
            None => None,
        };
        CEnumVariable { identity, type_display_name: display, value: resolved }
    }

    /// The enumerator name registered for a discriminant value.
    fn lookup_enum_name(&self, enumerators: &Vec<(i64, String)>, n: i64) -> (r: Option<String>)
        ensures
            opt_view(&r) == spec_enum_name_lookup(enumerators@, n),
    {
        let mut k: usize = 0;
        proof {
            assert(enumerators@.skip(0) =~= enumerators@);
        }
        while k < enumerators.len()
            invariant
                k <= enumerators@.len(),
                spec_enum_name_lookup(enumerators@, n) == spec_enum_name_lookup(
                    enumerators@.skip(k as int),
                    n,
                ),
            decreases enumerators@.len() - k,
        {
            proof {
                assert(enumerators@.skip(k as int)[0] == enumerators@[k as int]);
                assert(enumerators@.skip(k as int).drop_first() =~= enumerators@.skip(k + 1));
            }
            if enumerators[k].0 == n {
                return Some(String::from_str(enumerators[k].1.as_str()));
            }
            k += 1;
        }
        proof {
            assert(enumerators@.skip(k as int) =~= Seq::<(i64, String)>::empty());
        }
        None
    }

    /// Decodes a discriminant buffer as the scalar its type declares.
    fn read_scalar_discr(&self, discr_type: Option<TypeIdentity>, bytes: Option<&Vec<u8>>) -> (r:
        Option<i64>)
        ensures
            r == spec_scalar_discr(
                self.graph,
                discr_type,
                match bytes {
                    Some(v) => Some(v@),
                    None => None,
                },
            ),
    {
        let id = match discr_type {
            Some(id) => id,
            None => {
                return None;
            },
        };
        match self.graph.get(id) {
            Some(TypeDeclaration::Scalar(st)) => {
                let decoded = decode_scalar(st.encoding, st.byte_size, bytes);
                let sv = ScalarVariable {
                    identity: VariableIdentity::no_namespace(None),
                    type_display_name: None,
                    value: decoded,
                };
                sv.try_as_number()
            },
            _ => None,
        }
    }

    /// Resolves a tagged enum: evaluates the discriminant member against
    /// the parent bytes, picks the registered variant (or the default one),
    /// and reifies that variant's member.
    fn parse_rust_enum<M: MemoryGateway>(
        &self,
        gw: &mut M,
        ctx: &EvaluationContext,
        identity: VariableIdentity,
        value: Option<&Vec<u8>>,
        display: Option<String>,
        discr_member: Option<&StructureMember>,
        enumerators: &Vec<(Option<i64>, StructureMember)>,
        fuel: usize,
    ) -> (r: RustEnumVariable)
        requires
            1 <= fuel,
        ensures
            final(gw).mem() == old(gw).mem(),
            forall|a: int, l: int|
                #[trigger] final(gw).readable(a, l) == old(gw).readable(a, l),
            final(gw).reads() >= old(gw).reads(),
            r.identity == identity,
            r.type_display_name == display,
            enum_value_ok(
                self.graph,
                spec_variant_lookup(
                    enumerators@,
                    spec_member_discr(
                        self.graph,
                        match discr_member {
                            Some(m) => Some(*m),
                            None => None,
                        },
                        match value {
                            Some(v) => Some(v@),
                            None => None,
                        },
                    ),
                ),
                match value {
                    Some(v) => Some(v@),
                    None => None,
                },
                r.value,
            ),
        decreases fuel, 2int,
    {
        let discr = match discr_member {
            Some(m) => {
                let discr_bytes = self.graph.member_bytes(ctx, m, value);
                self.read_scalar_discr(m.type_ref, discr_bytes.as_ref())
            },
            None => None,
        };
        let chosen: Option<&StructureMember> = match discr {
            Some(n) => {
                match self.find_keyed(enumerators, n) {
                    Some(m) => Some(m),
                    None => self.find_default(enumerators),
                }
            },
            None => self.find_default(enumerators),
        };
        let child = match chosen {
            Some(m) => match self.parse_struct_member(gw, ctx, m, value, fuel) {
                Some(ir) => Some(Box::new(ir)),
                None => None,
            },
            None => None,
        };
        RustEnumVariable { identity, type_display_name: display, value: child }
    }

    /// The first enumerator pair keyed by `n`.
    fn find_keyed<'b>(&self, pairs: &'b Vec<(Option<i64>, StructureMember)>, n: i64) -> (r: Option<
        &'b StructureMember,
    >)
        ensures
            match spec_keyed_lookup(pairs@, n) {
                Some(m) => r matches Some(out) && *out == m,
                None => r is None,
            },
    {
        let mut k: usize = 0;
        proof {
            assert(pairs@.skip(0) =~= pairs@);
        }
        while k < pairs.len()
            invariant
                k <= pairs@.len(),
                spec_keyed_lookup(pairs@, n) == spec_keyed_lookup(pairs@.skip(k as int), n),
            decreases pairs@.len() - k,
        {
            proof {
                assert(pairs@.skip(k as int)[0] == pairs@[k as int]);
                assert(pairs@.skip(k as int).drop_first() =~= pairs@.skip(k + 1));
            }
            let matches_key = match pairs[k].0 {
                Some(v) => v == n,
                None => false,
            };
            if matches_key {
                return Some(&pairs[k].1);
            }
            k += 1;
        }
        proof {
            assert(pairs@.skip(k as int) =~= Seq::<(Option<i64>, StructureMember)>::empty());
        }
        None
    }

    /// The first default (unkeyed) enumerator pair.
    fn find_default<'b>(&self, pairs: &'b Vec<(Option<i64>, StructureMember)>) -> (r: Option<
        &'b StructureMember,
    >)
        ensures
            match spec_default_lookup(pairs@) {
                Some(m) => r matches Some(out) && *out == m,
                None => r is None,
            },
    {
        let mut k: usize = 0;
        proof {
            assert(pairs@.skip(0) =~= pairs@);
        }
        while k < pairs.len()
            invariant
                k <= pairs@.len(),
                spec_default_lookup(pairs@) == spec_default_lookup(pairs@.skip(k as int)),
            decreases pairs@.len() - k,
        {
            proof {
                assert(pairs@.skip(k as int)[0] == pairs@[k as int]);
                assert(pairs@.skip(k as int).drop_first() =~= pairs@.skip(k + 1));
            }
            if pairs[k].0.is_none() {
                return Some(&pairs[k].1);
            }
            k += 1;
        }
        proof {
            assert(pairs@.skip(k as int) =~= Seq::<(Option<i64>, StructureMember)>::empty());
        }
        None
    }
}

/// The byte chunks an array buffer splits into: present when the bounds,
/// the element type, the element size and the buffer are all known and the
/// chunks fit, one chunk of the element's size per index.
pub open spec fn spec_array_elements(
    graph: &ComplexType,
    a: ArrayType,
    bytes: Option<Seq<u8>>,
) -> Option<Seq<Seq<u8>>> {
    match (a.bounds, a.element_type, bytes) {
        (Some((lo, hi)), Some(el), Some(b)) => {
            if lo > hi {
                None
            } else {
                match spec_size_in_bytes(graph, el, spec_size_fuel(graph)) {
                    Some(el_size) => if (hi - lo) * el_size <= b.len() && (hi - lo) * el_size
                        <= u64::MAX {
                        Some(
                            Seq::new(
                                (hi - lo) as nat,
                                |k: int| b.subrange(k * el_size, k * el_size + el_size),
                            ),
                        )
                    } else {
                        None
                    },
                    None => None,
                }
            }
        },
        _ => None,
    }
}

/// What a reified array's item list guarantees: one item per index between
/// the bounds, named by its absolute index, with scalar and pointer items
/// decoded from their chunk of the buffer.
pub open spec fn array_items_ok(
    graph: &ComplexType,
    decl: ArrayType,
    bytes: Option<Seq<u8>>,
    items: Seq<VariableIR>,
) -> bool {
    match (decl.bounds, decl.element_type) {
        (Some((lo, hi)), Some(el)) => {
            &&& items.len() == hi - lo
            &&& (forall|j: int|
                0 <= j < items.len() ==> (#[trigger] items[j]).spec_name() == Some(
                    dec_int(lo + j),
                ))
            &&& (forall|j: int|
                0 <= j < items.len() ==> element_matches(
                    graph,
                    el,
                    spec_array_elements(graph, decl, bytes)->Some_0[j],
                    #[trigger] items[j],
                ))
        },
        _ => false,
    }
}

/// What a resolved tagged enum's value guarantees: present exactly when the
/// chosen variant member carries a type reference, and then reified from
/// that member.
pub open spec fn enum_value_ok(
    graph: &ComplexType,
    chosen: Option<StructureMember>,
    parent: Option<Seq<u8>>,
    value: Option<Box<VariableIR>>,
) -> bool {
    match chosen {
        Some(m) => {
            &&& (value is Some <==> m.type_ref is Some)
            &&& (value matches Some(child) ==> member_matches(graph, m, parent, *child))
        },
        None => value is None,
    }
}

/// What a reified array element guarantees relative to the element type:
/// its shape and decoded value follow the element declaration and the
/// element's chunk of the buffer.
pub open spec fn element_matches(
    graph: &ComplexType,
    el: TypeIdentity,
    chunk: Seq<u8>,
    ir: VariableIR,
) -> bool {
    child_shape_ok(graph, el, Some(chunk), ir)
}


/// Pointwise sameness of two type-parameter tables: equal names and equal
/// type handles.
pub open spec fn params_view_eq(
    a: Seq<(String, Option<TypeIdentity>)>,
    b: Seq<(String, Option<TypeIdentity>)>,
) -> bool {
    &&& a.len() == b.len()
    &&& forall|i: int| 0 <= i < a.len() ==> (#[trigger] a[i]).0@ == b[i].0@ && a[i].1 == b[i].1
}

/// What the members of a reified structure or union guarantee: one child
/// per declared member that carries a type reference, in order, each
/// matching its declaration against the parent buffer.
pub open spec fn struct_members_ok(
    graph: &ComplexType,
    sv: StructVariable,
    members: Seq<StructureMember>,
    bytes: Option<Seq<u8>>,
) -> bool {
    &&& sv.members@.len() == spec_kept_members(members).len()
    &&& forall|j: int|
        0 <= j < sv.members@.len() ==> member_matches(
            graph,
            spec_kept_members(members)[j],
            bytes,
            #[trigger] sv.members@[j],
        )
}

/// Whether a declaration is reified without any recursion or memory read:
/// scalars are decoded in place, pointers only capture their address.
pub open spec fn is_flat_decl(decl: TypeDeclaration) -> bool {
    match decl {
        TypeDeclaration::Scalar(_) => true,
        TypeDeclaration::Pointer { .. } => true,
        _ => false,
    }
}

/// What one dispatch step of the reifier guarantees, by the kind of the
/// declaration the type handle refers to.
pub open spec fn inner_result_ok(
    graph: &ComplexType,
    decl: TypeDeclaration,
    identity: VariableIdentity,
    bytes: Option<Seq<u8>>,
    type_id: TypeIdentity,
    r: VariableIR,
) -> bool {
    match decl {
        TypeDeclaration::Scalar(st) => r matches VariableIR::Scalar(sv) && sv.identity == identity
            && opt_view(&sv.type_display_name) == opt_view(&st.name) && sv.value
            == spec_decode_scalar(st.encoding, st.byte_size, bytes),
        TypeDeclaration::Pointer { name, target_type } => r matches VariableIR::Pointer(pv)
            && pv.identity == identity && pv.value == spec_pointer_value(bytes) && pv.target_type
            == target_type && opt_view(&pv.type_display_name) == spec_pointer_display(
            opt_view(&name),
            match target_type {
                Some(t) => graph.spec_type_name(t),
                None => None,
            },
        ),
        TypeDeclaration::Array(a) => r matches VariableIR::Array(av) && av.identity == identity
            && opt_view(&av.type_display_name) == graph.spec_type_name(type_id) && (
        av.items is Some <==> spec_array_elements(graph, a, bytes) is Some) && (
        av.items matches Some(items) ==> array_items_ok(graph, a, bytes, items@)),
        TypeDeclaration::CStyleEnum { discr_type, enumerators, .. } => r matches VariableIR::CEnum(
            ce,
        ) && ce.identity == identity && opt_view(&ce.type_display_name) == graph.spec_type_name(
            type_id,
        ) && opt_view(&ce.value) == (match spec_scalar_discr(
            graph,
            discr_type,
            bytes,
        ) {
            Some(n) => spec_enum_name_lookup(enumerators@, n),
            None => None,
        }),
        TypeDeclaration::RustEnum { discr_type, enumerators, .. } => r matches
            VariableIR::RustEnum(re) && re.identity == identity && opt_view(
            &re.type_display_name,
        ) == graph.spec_type_name(type_id) && enum_value_ok(
            graph,
            spec_variant_lookup(
                enumerators@,
                spec_member_discr(
                    graph,
                    match discr_type {
                        Some(b) => Some(*b),
                        None => None,
                    },
                    bytes,
                ),
            ),
            bytes,
            re.value,
        ),
        TypeDeclaration::Union { members, .. } => r matches VariableIR::Struct(sv) && sv.identity
            == identity && opt_view(&sv.type_display_name) == graph.spec_type_name(type_id)
            && sv.type_params@.len() == 0 && struct_members_ok(
            graph,
            sv,
            members@,
            bytes,
        ),
        TypeDeclaration::Structure { name, namespaces, members, type_params, .. } => {
            let kind = crate::specialization::spec_recognize(opt_view(&name), &namespaces);
            match r {
                VariableIR::Struct(sv) => kind is Plain && sv.identity == identity && opt_view(
                    &sv.type_display_name,
                ) == graph.spec_type_name(type_id) && params_view_eq(
                    sv.type_params@,
                    type_params@,
                ) && struct_members_ok(
                    graph,
                    sv,
                    members@,
                    bytes,
                ),
                VariableIR::Specialized(sp) => !(kind is Plain) && crate::specialization::variant_kind(
                    sp,
                ) == kind && sp.spec_original().identity == identity && opt_view(
                    &sp.spec_original().type_display_name,
                ) == graph.spec_type_name(type_id) && params_view_eq(
                    sp.spec_original().type_params@,
                    type_params@,
                ) && struct_members_ok(graph, *sp.spec_original(), members@, bytes),
                _ => false,
            }
        },
    }
}

impl<'a> VariableParser<'a> {
    /// Reifies one node: dispatches on the declaration the type handle
    /// refers to.  A missing declaration or exhausted recursion budget
    /// yields a scalar with an absent value; a pointer declaration issues
    /// no memory read at all.
    pub(crate) fn parse_inner<M: MemoryGateway>(
        &self,
        gw: &mut M,
        ctx: &EvaluationContext,
        identity: VariableIdentity,
        value: Option<Vec<u8>>,
        type_id: TypeIdentity,
        fuel: usize,
    ) -> (r: VariableIR)
        ensures
            final(gw).mem() == old(gw).mem(),
            forall|a: int, l: int|
                #[trigger] final(gw).readable(a, l) == old(gw).readable(a, l),
            final(gw).reads() >= old(gw).reads(),
            *r.spec_identity() == identity,
            type_id.0 >= self.graph.types@.len() ==> (r matches VariableIR::Scalar(sv)
                && sv.value is None),
            (type_id.0 < self.graph.types@.len() && (fuel > 0 || is_flat_decl(
                self.graph.types@[type_id.0 as int],
            ))) ==> inner_result_ok(
                self.graph,
                self.graph.types@[type_id.0 as int],
                identity,
                match value {
                    Some(v) => Some(v@),
                    None => None,
                },
                type_id,
                r,
            ),
            (fuel == 0 && type_id.0 < self.graph.types@.len() && !is_flat_decl(
                self.graph.types@[type_id.0 as int],
            )) ==> (r matches VariableIR::Scalar(sv) && sv.value is None),
            (type_id.0 < self.graph.types@.len() && is_flat_decl(
                self.graph.types@[type_id.0 as int],
            )) ==> final(gw).reads() == old(gw).reads(),
        decreases fuel, 3int,
    {
        let display = self.graph.type_display_name(type_id);
        let decl = match self.graph.get(type_id) {
            Some(d) => d,
            None => {
                return VariableIR::Scalar(
                    ScalarVariable { identity, type_display_name: None, value: None },
                );
            },
        };
        let flat = match decl {
            TypeDeclaration::Scalar(_) => true,
            TypeDeclaration::Pointer { .. } => true,
            _ => false,
        };
        if fuel == 0 && !flat {
            return VariableIR::Scalar(
                ScalarVariable { identity, type_display_name: None, value: None },
            );
        }
        match decl {
            TypeDeclaration::Scalar(st) => VariableIR::Scalar(
                self.parse_scalar(identity, value, st),
            ),
            TypeDeclaration::Structure { name, namespaces, members, type_params, .. } => {
                let params = crate::ir::dup_type_params(type_params);
                let raw = self.parse_struct_variable(
                    gw,
                    ctx,
                    identity,
                    value.as_ref(),
                    display,
                    params,
                    members,
                    fuel,
                );
                let kind = crate::specialization::recognize(name, namespaces);
                let ext = crate::specialization::VariableParserExtension::new(self);
                match kind {
                    crate::specialization::ContainerKind::Plain => VariableIR::Struct(raw),
                    crate::specialization::ContainerKind::Str => VariableIR::Specialized(
                        ext.parse_str(gw, ctx, raw),
                    ),
                    crate::specialization::ContainerKind::String => VariableIR::Specialized(
                        ext.parse_string(gw, ctx, raw),
                    ),
                    crate::specialization::ContainerKind::Vector => VariableIR::Specialized(
                        ext.parse_vector(gw, ctx, raw, fuel),
                    ),
                    crate::specialization::ContainerKind::VecDeque => VariableIR::Specialized(
                        ext.parse_vec_dequeue(gw, ctx, raw, fuel),
                    ),
                    crate::specialization::ContainerKind::Tls => VariableIR::Specialized(
                        ext.parse_tls(raw),
                    ),
                    crate::specialization::ContainerKind::HashMap => VariableIR::Specialized(
                        ext.parse_hashmap(gw, ctx, raw, fuel),
                    ),
                    crate::specialization::ContainerKind::HashSet => VariableIR::Specialized(
                        ext.parse_hashset(gw, ctx, raw, fuel),
                    ),
                    // The ordered-tree node walk needs a node layout the
                    // type graph's member description does not carry; the
                    // recognized structure stays navigable unprojected.
                    crate::specialization::ContainerKind::BTreeMap => VariableIR::Specialized(
                        SpecializedVariableIR::BTreeMap { map: None, original: raw },
                    ),
                    crate::specialization::ContainerKind::BTreeSet => VariableIR::Specialized(
                        SpecializedVariableIR::BTreeSet { set: None, original: raw },
                    ),
                    crate::specialization::ContainerKind::Cell => VariableIR::Specialized(
                        ext.parse_cell(raw),
                    ),
                    crate::specialization::ContainerKind::RefCell => VariableIR::Specialized(
                        ext.parse_refcell(raw),
                    ),
                }
            },
            TypeDeclaration::Array(a) => VariableIR::Array(
                self.parse_array(gw, ctx, identity, value, display, a, fuel),
            ),
            TypeDeclaration::CStyleEnum { discr_type, enumerators, .. } => VariableIR::CEnum(
                self.parse_c_enum(identity, value, display, *discr_type, enumerators),
            ),
            TypeDeclaration::RustEnum { discr_type, enumerators, .. } => {
                let dm: Option<&StructureMember> = match discr_type {
                    Some(b) => Some(&**b),
                    None => None,
                };
                VariableIR::RustEnum(
                    self.parse_rust_enum(
                        gw,
                        ctx,
                        identity,
                        value.as_ref(),
                        display,
                        dm,
                        enumerators,
                        fuel,
                    ),
                )
            },
            TypeDeclaration::Pointer { target_type, .. } => VariableIR::Pointer(
                self.parse_pointer(identity, value, display, *target_type),
            ),
            TypeDeclaration::Union { members, .. } => VariableIR::Struct(
                self.parse_struct_variable(
                    gw,
                    ctx,
                    identity,
                    value.as_ref(),
                    display,
                    Vec::new(),
                    members,
                    fuel,
                ),
            ),
        }
    }

    /// Reifies the graph's root type from a captured byte buffer.  This is
    /// the top-level entry of the reifier: further memory is read only to
    /// materialize recognized containers, and never to chase pointers.
    pub fn parse<M: MemoryGateway>(
        &self,
        gw: &mut M,
        ctx: &EvaluationContext,
        identity: VariableIdentity,
        value: Option<bytes::Bytes>,
    ) -> (r: VariableIR)
        ensures
            final(gw).mem() == old(gw).mem(),
            forall|a: int, l: int|
                #[trigger] final(gw).readable(a, l) == old(gw).readable(a, l),
            final(gw).reads() >= old(gw).reads(),
            *r.spec_identity() == identity,
            self.graph.root.0 >= self.graph.types@.len() ==> (r matches VariableIR::Scalar(sv)
                && sv.value is None),

            self.graph.root.0 < self.graph.types@.len() ==> inner_result_ok(
                self.graph,
                self.graph.types@[self.graph.root.0 as int],
                identity,
                match value {
                    Some(b) => Some(bytes_seq(b)),
                    None => None,
                },
                self.graph.root,
                r,
            ),
            (self.graph.root.0 < self.graph.types@.len() && (self.graph.types@[self.graph.root.0
                as int] matches TypeDeclaration::Pointer { .. })) ==> final(gw).reads() == old(
                gw,
            ).reads(),
    {
        let v: Option<Vec<u8>> = match &value {
            Some(b) => Some(bytes_to_vec(b)),
            None => None,
        };
        let fuel: usize = if self.graph.types.len() < usize::MAX {
            self.graph.types.len() + 1
        } else {
            usize::MAX
        };
        self.parse_inner(gw, ctx, identity, v, self.graph.root, fuel)
    }
}



/// Counts the members that carry a type reference.
#[verifier::loop_isolation(false)]
pub fn count_kept_members(members: &Vec<StructureMember>) -> (r: usize)
    ensures
        r == spec_kept_members(members@).len(),
{
    let mut count: usize = 0;
    let mut i: usize = 0;
    proof {
        assert(members@.take(0) =~= Seq::<StructureMember>::empty());
    }
    while i < members.len()
        invariant
            i <= members@.len(),
            count == spec_kept_members(members@.take(i as int)).len(),
        decreases members@.len() - i,
    {
        proof {
            lemma_kept_members_unfold_last(members@.take(i + 1));
            assert(members@.take(i + 1).take(i as int) =~= members@.take(i as int));
            assert(members@.take(i + 1)[i as int] == members@[i as int]);
            lemma_kept_len_bound(members@.take(i as int));
        }
        if members[i].type_ref.is_some() {
            count += 1;
        }
        i += 1;
    }
    proof {
        assert(members@.take(members@.len() as int) =~= members@);
    }
    count
}

/// A structure keeps at most as many members as it declares.
pub proof fn lemma_kept_len_bound(s: Seq<StructureMember>)
    ensures
        spec_kept_members(s).len() <= s.len(),
    decreases s.len(),
{
    if s.len() > 0 {
        lemma_kept_len_bound(s.drop_first());
    }
}

} // verus!
