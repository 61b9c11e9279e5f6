use vstd::prelude::*;
use crate::ident::{ns_view, opt_name_view, VariableIdentity};
use crate::scalar::{spec_try_as_number, SupportedScalar};
use crate::types::{opt_view, TypeIdentity};

verus! {

/// A decoded scalar leaf.
pub struct ScalarVariable {
    pub identity: VariableIdentity,
    pub type_display_name: Option<String>,
    pub value: Option<SupportedScalar>,
}

impl ScalarVariable {
    /// The signed 64-bit promotion of this scalar's value, when it is an
    /// integer.
    pub fn try_as_number(&self) -> (r: Option<i64>)
        ensures
            r == spec_try_as_number(self.value),
    {
        match self.value {
            Some(SupportedScalar::I8(n)) => Some(n as i64),
            Some(SupportedScalar::I16(n)) => Some(n as i64),
            Some(SupportedScalar::I32(n)) => Some(n as i64),
            Some(SupportedScalar::I64(n)) => Some(n),
            Some(SupportedScalar::I128(n)) => Some(crate::scalar::i128_wrap_to_i64(n)),
            Some(SupportedScalar::Isize(n)) => Some(n),
            Some(SupportedScalar::U8(n)) => Some(n as i64),
            Some(SupportedScalar::U16(n)) => Some(n as i64),
            Some(SupportedScalar::U32(n)) => Some(n as i64),
            Some(SupportedScalar::U64(n)) => Some(crate::scalar::u64_wrap_to_i64(n)),
            Some(SupportedScalar::U128(n)) => Some(crate::scalar::u128_wrap_to_i64(n)),
            Some(SupportedScalar::Usize(n)) => Some(crate::scalar::u64_wrap_to_i64(n)),
            _ => None,
        }
    }
}

/// A structure node: its reified members in declaration order, and the type
/// parameters of the declaration for the specialization layer.
pub struct StructVariable {
    pub identity: VariableIdentity,
    pub type_display_name: Option<String>,
    pub members: Vec<VariableIR>,
    pub type_params: Vec<(String, Option<TypeIdentity>)>,
}

/// An array node; `items` is absent when the bounds were unknown.
pub struct ArrayVariable {
    pub identity: VariableIdentity,
    pub type_display_name: Option<String>,
    pub items: Option<Vec<VariableIR>>,
}

/// A C-style enumeration node; `value` is the resolved enumerator name.
pub struct CEnumVariable {
    pub identity: VariableIdentity,
    pub type_display_name: Option<String>,
    pub value: Option<String>,
}

/// A tagged-enum node; `value` is the already-reified active variant.
pub struct RustEnumVariable {
    pub identity: VariableIdentity,
    pub type_display_name: Option<String>,
    pub value: Option<Box<VariableIR>>,
}

/// A pointer node: the captured address as an unsigned word of the target's
/// pointer width.  The target is never read at parse time; `target_type` is
/// kept for a later dereference.
pub struct PointerVariable {
    pub identity: VariableIdentity,
    pub type_display_name: Option<String>,
    pub value: Option<u64>,
    pub target_type: Option<TypeIdentity>,
}

/// A materialized vector: a synthetic structure holding the decoded buffer
/// and the capacity.
pub struct VecVariable {
    pub structure: StructVariable,
}

/// A materialized owned string.
pub struct StringVariable {
    pub identity: VariableIdentity,
    pub value: String,
}

/// A materialized string slice.
pub struct StrVariable {
    pub identity: VariableIdentity,
    pub value: String,
}

/// A materialized hash map: its key-value pairs in bucket order.
pub struct HashMapVariable {
    pub identity: VariableIdentity,
    pub type_display_name: Option<String>,
    pub kv_items: Vec<(VariableIR, VariableIR)>,
}

/// A materialized hash set: its items in bucket order.
pub struct HashSetVariable {
    pub identity: VariableIdentity,
    pub type_display_name: Option<String>,
    pub items: Vec<VariableIR>,
}

/// A materialized thread-local value, when the slot is initialized.
pub struct TlsVariable {
    pub identity: VariableIdentity,
    pub inner_value: Option<Box<VariableIR>>,
    pub inner_type: Option<String>,
}

/// A raw structure re-projected as a well-known standard container.
///
/// Every variant preserves the raw structure it was recognized from, so
/// specialization is lossless; the payload is absent when the container's
/// layout contract could not be satisfied.
pub enum SpecializedVariableIR {
    Vector { vec: Option<VecVariable>, original: StructVariable },
    VecDeque { vec: Option<VecVariable>, original: StructVariable },
    String { string: Option<StringVariable>, original: StructVariable },
    Str { string: Option<StrVariable>, original: StructVariable },
    Tls { tls_var: Option<TlsVariable>, original: StructVariable },
    HashMap { map: Option<HashMapVariable>, original: StructVariable },
    HashSet { set: Option<HashSetVariable>, original: StructVariable },
    BTreeMap { map: Option<HashMapVariable>, original: StructVariable },
    BTreeSet { set: Option<HashSetVariable>, original: StructVariable },
    Cell { value: Option<Box<VariableIR>>, original: StructVariable },
    RefCell { value: Option<Box<VariableIR>>, original: StructVariable },
}

impl SpecializedVariableIR {
    /// The raw structure the specialization was recognized from.
    pub open spec fn spec_original(&self) -> &StructVariable {
        match self {
            SpecializedVariableIR::Vector { original, .. } => original,
            SpecializedVariableIR::VecDeque { original, .. } => original,
            SpecializedVariableIR::String { original, .. } => original,
            SpecializedVariableIR::Str { original, .. } => original,
            SpecializedVariableIR::Tls { original, .. } => original,
            SpecializedVariableIR::HashMap { original, .. } => original,
            SpecializedVariableIR::HashSet { original, .. } => original,
            SpecializedVariableIR::BTreeMap { original, .. } => original,
            SpecializedVariableIR::BTreeSet { original, .. } => original,
            SpecializedVariableIR::Cell { original, .. } => original,
            SpecializedVariableIR::RefCell { original, .. } => original,
        }
    }

    /// The raw structure the specialization was recognized from.
    pub fn original(&self) -> (r: &StructVariable)
        ensures
            r == self.spec_original(),
    {
        match self {
            SpecializedVariableIR::Vector { original, .. } => original,
            SpecializedVariableIR::VecDeque { original, .. } => original,
            SpecializedVariableIR::String { original, .. } => original,
            SpecializedVariableIR::Str { original, .. } => original,
            SpecializedVariableIR::Tls { original, .. } => original,
            SpecializedVariableIR::HashMap { original, .. } => original,
            SpecializedVariableIR::HashSet { original, .. } => original,
            SpecializedVariableIR::BTreeMap { original, .. } => original,
            SpecializedVariableIR::BTreeSet { original, .. } => original,
            SpecializedVariableIR::Cell { original, .. } => original,
            SpecializedVariableIR::RefCell { original, .. } => original,
        }
    }
}

/// One node of the reified value tree, discriminated by kind.
pub enum VariableIR {
    Scalar(ScalarVariable),
    Struct(StructVariable),
    Array(ArrayVariable),
    CEnum(CEnumVariable),
    RustEnum(RustEnumVariable),
    Pointer(PointerVariable),
    Specialized(SpecializedVariableIR),
}

impl VariableIR {
    /// The identity of this node; a specialized node answers with the
    /// identity of the raw structure it preserves.
    pub open spec fn spec_identity(&self) -> &VariableIdentity {
        match self {
            VariableIR::Scalar(s) => &s.identity,
            VariableIR::Struct(s) => &s.identity,
            VariableIR::Array(a) => &a.identity,
            VariableIR::CEnum(e) => &e.identity,
            VariableIR::RustEnum(e) => &e.identity,
            VariableIR::Pointer(p) => &p.identity,
            VariableIR::Specialized(s) => &s.spec_original().identity,
        }
    }

    /// The identity of this node.
    pub fn identity(&self) -> (r: &VariableIdentity)
        ensures
            r == self.spec_identity(),
    {
        match self {
            VariableIR::Scalar(s) => &s.identity,
            VariableIR::Struct(s) => &s.identity,
            VariableIR::Array(a) => &a.identity,
            VariableIR::CEnum(e) => &e.identity,
            VariableIR::RustEnum(e) => &e.identity,
            VariableIR::Pointer(p) => &p.identity,
            VariableIR::Specialized(s) => &s.original().identity,
        }
    }

    /// The character contents of this node's name, if it has one.
    pub open spec fn spec_name(&self) -> Option<Seq<char>> {
        opt_view(&self.spec_identity().name)
    }
}

/// The structural children a traversal descends into: the members of a
/// structure, the items of an array, the active variant of a tagged enum.
/// Pointers do not expand — a parse-time pointer has no materialized target
/// — and a specialized node expands through the members of its preserved
/// raw structure, so landmark fields stay reachable.
pub open spec fn spec_children(v: VariableIR) -> Seq<VariableIR> {
    match v {
        VariableIR::Scalar(_) => Seq::empty(),
        VariableIR::CEnum(_) => Seq::empty(),
        VariableIR::Pointer(_) => Seq::empty(),
        VariableIR::Struct(s) => s.members@,
        VariableIR::Array(a) => match a.items {
            Some(items) => items@,
            None => Seq::empty(),
        },
        VariableIR::RustEnum(e) => match e.value {
            Some(b) => seq![*b],
            None => Seq::empty(),
        },
        VariableIR::Specialized(s) => s.spec_original().members@,
    }
}

/// The number of nodes of a tree, counting only traversal-reachable ones.
pub open spec fn ir_size(v: VariableIR) -> nat
    decreases v, 0int,
{
    match v {
        VariableIR::Scalar(_) => 1,
        VariableIR::CEnum(_) => 1,
        VariableIR::Pointer(_) => 1,
        VariableIR::Struct(s) => 1 + ir_seq_size(s.members@),
        VariableIR::Array(a) => match a.items {
            Some(items) => 1 + ir_seq_size(items@),
            None => 1,
        },
        VariableIR::RustEnum(e) => match e.value {
            Some(b) => 1 + ir_size(*b),
            None => 1,
        },
        VariableIR::Specialized(s) => 1 + ir_seq_size(s.spec_original().members@),
    }
}

/// The total number of nodes of a forest.
pub open spec fn ir_seq_size(s: Seq<VariableIR>) -> nat
    decreases s, 1int,
{
    if s.len() == 0 {
        0
    } else {
        ir_size(s[0]) + ir_seq_size(s.drop_first())
    }
}

/// A node counts itself and its children's trees.
pub proof fn lemma_ir_size_children(v: VariableIR)
    ensures
        ir_size(v) == 1 + ir_seq_size(spec_children(v)),
{
    assert(ir_seq_size(Seq::<VariableIR>::empty()) == 0);
    match v {
        VariableIR::Scalar(_) => {
            assert(spec_children(v) =~= Seq::<VariableIR>::empty());
        },
        VariableIR::CEnum(_) => {
            assert(spec_children(v) =~= Seq::<VariableIR>::empty());
        },
        VariableIR::Pointer(_) => {
            assert(spec_children(v) =~= Seq::<VariableIR>::empty());
        },
        VariableIR::Struct(s) => {
            assert(spec_children(v) == s.members@);
        },
        VariableIR::Array(a) => {
            match a.items {
                Some(items) => {
                    assert(spec_children(v) == items@);
                },
                None => {
                    assert(spec_children(v) =~= Seq::<VariableIR>::empty());
                },
            }
        },
        VariableIR::RustEnum(e) => {
            match e.value {
                Some(b) => {
                    let cs = spec_children(v);
                    assert(cs == seq![*b]);
                    assert(cs.len() == 1);
                    assert(cs[0] == *b);
                    assert(cs.drop_first() =~= Seq::<VariableIR>::empty());
                    assert(ir_seq_size(cs) == ir_size(*b));
                    assert(ir_size(v) == 1 + ir_size(*b));
                },
                None => {
                    assert(spec_children(v) =~= Seq::<VariableIR>::empty());
                },
            }
        },
        VariableIR::Specialized(s) => {
            assert(spec_children(v) == s.spec_original().members@);
        },
    }
}

/// Structural sameness of two identities: equal namespace contents and
/// equal name contents.
pub open spec fn ident_like(a: &VariableIdentity, b: &VariableIdentity) -> bool {
    &&& ns_view(&a.namespace) == ns_view(&b.namespace)
    &&& opt_name_view(&a.name) == opt_name_view(&b.name)
}

/// Structural sameness of two optional strings: equal contents.
pub open spec fn opt_str_like(a: &Option<String>, b: &Option<String>) -> bool {
    opt_view(a) == opt_view(b)
}

/// Structural sameness of two type-parameter tables: equal names and equal
/// type handles, position by position.
pub open spec fn params_like(
    a: Seq<(String, Option<TypeIdentity>)>,
    b: Seq<(String, Option<TypeIdentity>)>,
) -> bool {
    &&& a.len() == b.len()
    &&& forall|i: int| 0 <= i < a.len() ==> (#[trigger] a[i]).0@ == b[i].0@ && a[i].1 == b[i].1
}

/// Structural sameness of two trees: the same shape, identities, display
/// names and decoded values throughout, with string fields compared by
/// their contents.  This is the equality a deep copy preserves.
pub open spec fn ir_like(a: VariableIR, b: VariableIR) -> bool
    decreases a,
{
    match a {
        VariableIR::Scalar(x) => b matches VariableIR::Scalar(y) && ident_like(
            &x.identity,
            &y.identity,
        ) && opt_str_like(&x.type_display_name, &y.type_display_name) && x.value == y.value,
        VariableIR::Struct(x) => b matches VariableIR::Struct(y) && struct_like(x, y),
        VariableIR::Array(x) => b matches VariableIR::Array(y) && ident_like(
            &x.identity,
            &y.identity,
        ) && opt_str_like(&x.type_display_name, &y.type_display_name) && (match (
            x.items,
            y.items,
        ) {
            (Some(xi), Some(yi)) => ir_seq_like(xi@, yi@),
            (None, None) => true,
            _ => false,
        }),
        VariableIR::CEnum(x) => b matches VariableIR::CEnum(y) && ident_like(
            &x.identity,
            &y.identity,
        ) && opt_str_like(&x.type_display_name, &y.type_display_name) && opt_str_like(
            &x.value,
            &y.value,
        ),
        VariableIR::RustEnum(x) => b matches VariableIR::RustEnum(y) && ident_like(
            &x.identity,
            &y.identity,
        ) && opt_str_like(&x.type_display_name, &y.type_display_name) && (match (
            x.value,
            y.value,
        ) {
            (Some(bx), Some(by)) => ir_like(*bx, *by),
            (None, None) => true,
            _ => false,
        }),
        VariableIR::Pointer(x) => b matches VariableIR::Pointer(y) && ident_like(
            &x.identity,
            &y.identity,
        ) && opt_str_like(&x.type_display_name, &y.type_display_name) && x.value == y.value
            && x.target_type == y.target_type,
        VariableIR::Specialized(sx) => b matches VariableIR::Specialized(sy) && specialized_like(
            sx,
            sy,
        ),
    }
}

/// Structural sameness of two structure nodes.
pub open spec fn struct_like(a: StructVariable, b: StructVariable) -> bool
    decreases a,
{
    &&& ident_like(&a.identity, &b.identity)
    &&& opt_str_like(&a.type_display_name, &b.type_display_name)
    &&& params_like(a.type_params@, b.type_params@)
    &&& ir_seq_like(a.members@, b.members@)
}

/// Structural sameness of two forests, tree by tree.
pub open spec fn ir_seq_like(a: Seq<VariableIR>, b: Seq<VariableIR>) -> bool
    decreases a,
{
    &&& a.len() == b.len()
    &&& (a.len() > 0 ==> ir_like(a[0], b[0]) && ir_seq_like(a.drop_first(), b.drop_first()))
}

/// Structural sameness of two pair lists, component by component.
pub open spec fn pair_seq_like(
    a: Seq<(VariableIR, VariableIR)>,
    b: Seq<(VariableIR, VariableIR)>,
) -> bool
    decreases a,
{
    &&& a.len() == b.len()
    &&& (a.len() > 0 ==> ir_like(a[0].0, b[0].0) && ir_like(a[0].1, b[0].1) && pair_seq_like(
        a.drop_first(),
        b.drop_first(),
    ))
}

/// Structural sameness of two specialized nodes: the same variant, the
/// same preserved raw structure, and structurally-same payloads.
pub open spec fn specialized_like(a: SpecializedVariableIR, b: SpecializedVariableIR) -> bool
    decreases a,
{
    match a {
        SpecializedVariableIR::Vector { vec: va, original: oa } => b matches
            SpecializedVariableIR::Vector { vec: vb, original: ob } && struct_like(oa, ob) && (
        match (va, vb) {
            (Some(x), Some(y)) => struct_like(x.structure, y.structure),
            (None, None) => true,
            _ => false,
        }),
        SpecializedVariableIR::VecDeque { vec: va, original: oa } => b matches
            SpecializedVariableIR::VecDeque { vec: vb, original: ob } && struct_like(oa, ob) && (
        match (va, vb) {
            (Some(x), Some(y)) => struct_like(x.structure, y.structure),
            (None, None) => true,
            _ => false,
        }),
        SpecializedVariableIR::String { string: sa, original: oa } => b matches
            SpecializedVariableIR::String { string: sb, original: ob } && struct_like(oa, ob) && (
        match (sa, sb) {
            (Some(x), Some(y)) => ident_like(&x.identity, &y.identity) && x.value@ == y.value@,
            (None, None) => true,
            _ => false,
        }),
        SpecializedVariableIR::Str { string: sa, original: oa } => b matches
            SpecializedVariableIR::Str { string: sb, original: ob } && struct_like(oa, ob) && (
        match (sa, sb) {
            (Some(x), Some(y)) => ident_like(&x.identity, &y.identity) && x.value@ == y.value@,
            (None, None) => true,
            _ => false,
        }),
        SpecializedVariableIR::Tls { tls_var: ta, original: oa } => b matches
            SpecializedVariableIR::Tls { tls_var: tb, original: ob } && struct_like(oa, ob) && (
        match (ta, tb) {
            (Some(x), Some(y)) => ident_like(&x.identity, &y.identity) && opt_str_like(
                &x.inner_type,
                &y.inner_type,
            ) && (match (x.inner_value, y.inner_value) {
                (Some(bx), Some(by)) => ir_like(*bx, *by),
                (None, None) => true,
                _ => false,
            }),
            (None, None) => true,
            _ => false,
        }),
        SpecializedVariableIR::HashMap { map: ma, original: oa } => b matches
            SpecializedVariableIR::HashMap { map: mb, original: ob } && struct_like(oa, ob) && (
        match (ma, mb) {
            (Some(x), Some(y)) => ident_like(&x.identity, &y.identity) && opt_str_like(
                &x.type_display_name,
                &y.type_display_name,
            ) && pair_seq_like(x.kv_items@, y.kv_items@),
            (None, None) => true,
            _ => false,
        }),
        SpecializedVariableIR::HashSet { set: sa, original: oa } => b matches
            SpecializedVariableIR::HashSet { set: sb, original: ob } && struct_like(oa, ob) && (
        match (sa, sb) {
            (Some(x), Some(y)) => ident_like(&x.identity, &y.identity) && opt_str_like(
                &x.type_display_name,
                &y.type_display_name,
            ) && ir_seq_like(x.items@, y.items@),
            (None, None) => true,
            _ => false,
        }),
        SpecializedVariableIR::BTreeMap { map: ma, original: oa } => b matches
            SpecializedVariableIR::BTreeMap { map: mb, original: ob } && struct_like(oa, ob) && (
        match (ma, mb) {
            (Some(x), Some(y)) => ident_like(&x.identity, &y.identity) && opt_str_like(
                &x.type_display_name,
                &y.type_display_name,
            ) && pair_seq_like(x.kv_items@, y.kv_items@),
            (None, None) => true,
            _ => false,
        }),
        SpecializedVariableIR::BTreeSet { set: sa, original: oa } => b matches
            SpecializedVariableIR::BTreeSet { set: sb, original: ob } && struct_like(oa, ob) && (
        match (sa, sb) {
            (Some(x), Some(y)) => ident_like(&x.identity, &y.identity) && opt_str_like(
                &x.type_display_name,
                &y.type_display_name,
            ) && ir_seq_like(x.items@, y.items@),
            (None, None) => true,
            _ => false,
        }),
        SpecializedVariableIR::Cell { value: va, original: oa } => b matches
            SpecializedVariableIR::Cell { value: vb, original: ob } && struct_like(oa, ob) && (
        match (va, vb) {
            (Some(bx), Some(by)) => ir_like(*bx, *by),
            (None, None) => true,
            _ => false,
        }),
        SpecializedVariableIR::RefCell { value: va, original: oa } => b matches
            SpecializedVariableIR::RefCell { value: vb, original: ob } && struct_like(oa, ob) && (
        match (va, vb) {
            (Some(bx), Some(by)) => ir_like(*bx, *by),
            (None, None) => true,
            _ => false,
        }),
    }
}

/// Forests that agree tree by tree are structurally the same.
pub proof fn lemma_ir_seq_like_pointwise(a: Seq<VariableIR>, b: Seq<VariableIR>)
    requires
        a.len() == b.len(),
        forall|i: int| 0 <= i < a.len() ==> ir_like(#[trigger] a[i], b[i]),
    ensures
        ir_seq_like(a, b),
    decreases a.len(),
{
    if a.len() > 0 {
        assert(forall|i: int|
            0 <= i < a.drop_first().len() ==> ir_like(
                #[trigger] a.drop_first()[i],
                b.drop_first()[i],
            ));
        lemma_ir_seq_like_pointwise(a.drop_first(), b.drop_first());
    }
}

/// Pair lists that agree pair by pair are structurally the same.
pub proof fn lemma_pair_seq_like_pointwise(
    a: Seq<(VariableIR, VariableIR)>,
    b: Seq<(VariableIR, VariableIR)>,
)
    requires
        a.len() == b.len(),
        forall|i: int|
            0 <= i < a.len() ==> ir_like((#[trigger] a[i]).0, b[i].0) && ir_like(a[i].1, b[i].1),
    ensures
        pair_seq_like(a, b),
    decreases a.len(),
{
    if a.len() > 0 {
        assert(forall|i: int|
            0 <= i < a.drop_first().len() ==> ir_like(
                (#[trigger] a.drop_first()[i]).0,
                b.drop_first()[i].0,
            ) && ir_like(a.drop_first()[i].1, b.drop_first()[i].1));
        lemma_pair_seq_like_pointwise(a.drop_first(), b.drop_first());
    }
}

/// A copy of an optional string with the same contents.
pub(crate) fn dup_opt_string(o: &Option<String>) -> (r: Option<String>)
    ensures
        opt_view(&r) == opt_view(o),
{
    match o {
        Some(s) => Some(String::from_str(s.as_str())),
        None => None,
    }
}

/// A copy of a type-parameter table with the same contents.
pub(crate) fn dup_type_params(p: &Vec<(String, Option<TypeIdentity>)>) -> (r: Vec<
    (String, Option<TypeIdentity>),
>)
    ensures
        r@.len() == p@.len(),
        forall|i: int|
            0 <= i < p@.len() ==> (#[trigger] r@[i]).0@ == p@[i].0@ && r@[i].1 == p@[i].1,
{
    let mut out: Vec<(String, Option<TypeIdentity>)> = Vec::new();
    let mut i: usize = 0;
    while i < p.len()
        invariant
            i <= p@.len(),
            out@.len() == i,
            forall|j: int|
                0 <= j < i ==> (#[trigger] out@[j]).0@ == p@[j].0@ && out@[j].1 == p@[j].1,
        decreases p@.len() - i,
    {
        out.push((String::from_str(p[i].0.as_str()), p[i].1));
        i += 1;
    }
    out
}

impl StructVariable {
    /// A copy of this structure node, structurally the same.
    pub fn duplicate(&self) -> (r: StructVariable)
        ensures
            struct_like(r, *self),
            opt_name_view(&r.identity.name) == opt_name_view(&self.identity.name),
            ns_view(&r.identity.namespace) == ns_view(&self.identity.namespace),
            r.members@.len() == self.members@.len(),
            forall|i: int|
                0 <= i < self.members@.len() ==> (#[trigger] r.members@[i]).spec_name()
                    == self.members@[i].spec_name(),
        decreases *self,
    {
        StructVariable {
            identity: self.identity.duplicate(),
            type_display_name: dup_opt_string(&self.type_display_name),
            members: dup_members(&self.members),
            type_params: dup_type_params(&self.type_params),
        }
    }
}

/// A copy of a member list, structurally the same tree by tree.
fn dup_members(ms: &Vec<VariableIR>) -> (r: Vec<VariableIR>)
    ensures
        r@.len() == ms@.len(),
        ir_seq_like(r@, ms@),
        forall|i: int|
            0 <= i < ms@.len() ==> (#[trigger] r@[i]).spec_name() == ms@[i].spec_name(),
    decreases *ms,
{
    let mut out: Vec<VariableIR> = Vec::new();
    let mut i: usize = 0;
    while i < ms.len()
        invariant
            i <= ms@.len(),
            out@.len() == i,
            forall|j: int| 0 <= j < i ==> ir_like(#[trigger] out@[j], ms@[j]),
            forall|j: int| 0 <= j < i ==> (#[trigger] out@[j]).spec_name() == ms@[j].spec_name(),
        decreases ms@.len() - i,
    {
        proof {
            assert(decreases_to!(*ms => ms@));
            assert(decreases_to!(ms@ => ms@[i as int]));
        }
        out.push(ms[i].duplicate());
        i += 1;
    }
    proof {
        lemma_ir_seq_like_pointwise(out@, ms@);
    }
    out
}

impl VariableIR {
    /// A deep copy of this tree, structurally the same: identities, display
    /// names, decoded values and shape all carry over.
    pub fn duplicate(&self) -> (r: VariableIR)
        ensures
            ir_like(r, *self),
            r.spec_name() == self.spec_name(),
        decreases *self,
    {
        match self {
            VariableIR::Scalar(s) => VariableIR::Scalar(
                ScalarVariable {
                    identity: s.identity.duplicate(),
                    type_display_name: dup_opt_string(&s.type_display_name),
                    value: s.value,
                },
            ),
            VariableIR::Struct(s) => VariableIR::Struct(s.duplicate()),
            VariableIR::Array(a) => {
                let items = match &a.items {
                    Some(items) => Some(dup_members(items)),
                    None => None,
                };
                VariableIR::Array(
                    ArrayVariable {
                        identity: a.identity.duplicate(),
                        type_display_name: dup_opt_string(&a.type_display_name),
                        items,
                    },
                )
            },
            VariableIR::CEnum(e) => VariableIR::CEnum(
                CEnumVariable {
                    identity: e.identity.duplicate(),
                    type_display_name: dup_opt_string(&e.type_display_name),
                    value: dup_opt_string(&e.value),
                },
            ),
            VariableIR::RustEnum(e) => {
                let inner = match &e.value {
                    Some(b) => Some(Box::new((&**b).duplicate())),
                    None => None,
                };
                VariableIR::RustEnum(
                    RustEnumVariable {
                        identity: e.identity.duplicate(),
                        type_display_name: dup_opt_string(&e.type_display_name),
                        value: inner,
                    },
                )
            },
            VariableIR::Pointer(p) => VariableIR::Pointer(
                PointerVariable {
                    identity: p.identity.duplicate(),
                    type_display_name: dup_opt_string(&p.type_display_name),
                    value: p.value,
                    target_type: p.target_type,
                },
            ),
            VariableIR::Specialized(sp) => VariableIR::Specialized(sp.duplicate()),
        }
    }
}

impl SpecializedVariableIR {
    /// A deep copy of this specialized node, structurally the same.
    pub fn duplicate(&self) -> (r: SpecializedVariableIR)
        ensures
            specialized_like(r, *self),
            opt_name_view(&r.spec_original().identity.name) == opt_name_view(
                &self.spec_original().identity.name,
            ),
        decreases *self,
    {
        match self {
            SpecializedVariableIR::Vector { vec, original } => SpecializedVariableIR::Vector {
                vec: dup_opt_vec(vec),
                original: original.duplicate(),
            },
            SpecializedVariableIR::VecDeque { vec, original } => SpecializedVariableIR::VecDeque {
                vec: dup_opt_vec(vec),
                original: original.duplicate(),
            },
            SpecializedVariableIR::String { string, original } => SpecializedVariableIR::String {
                string: match string {
                    Some(s) => Some(
                        StringVariable {
                            identity: s.identity.duplicate(),
                            value: String::from_str(s.value.as_str()),
                        },
                    ),
                    None => None,
                },
                original: original.duplicate(),
            },
            SpecializedVariableIR::Str { string, original } => SpecializedVariableIR::Str {
                string: match string {
                    Some(s) => Some(
                        StrVariable {
                            identity: s.identity.duplicate(),
                            value: String::from_str(s.value.as_str()),
                        },
                    ),
                    None => None,
                },
                original: original.duplicate(),
            },
            SpecializedVariableIR::Tls { tls_var, original } => SpecializedVariableIR::Tls {
                tls_var: match tls_var {
                    Some(t) => Some(
                        TlsVariable {
                            identity: t.identity.duplicate(),
                            inner_value: match &t.inner_value {
                                Some(b) => Some(Box::new((&**b).duplicate())),
                                None => None,
                            },
                            inner_type: dup_opt_string(&t.inner_type),
                        },
                    ),
                    None => None,
                },
                original: original.duplicate(),
            },
            SpecializedVariableIR::HashMap { map, original } => SpecializedVariableIR::HashMap {
                map: dup_opt_map(map),
                original: original.duplicate(),
            },
            SpecializedVariableIR::HashSet { set, original } => SpecializedVariableIR::HashSet {
                set: dup_opt_set(set),
                original: original.duplicate(),
            },
            SpecializedVariableIR::BTreeMap { map, original } => SpecializedVariableIR::BTreeMap {
                map: dup_opt_map(map),
                original: original.duplicate(),
            },
            SpecializedVariableIR::BTreeSet { set, original } => SpecializedVariableIR::BTreeSet {
                set: dup_opt_set(set),
                original: original.duplicate(),
            },
            SpecializedVariableIR::Cell { value, original } => SpecializedVariableIR::Cell {
                value: match value {
                    Some(b) => Some(Box::new((&**b).duplicate())),
                    None => None,
                },
                original: original.duplicate(),
            },
            SpecializedVariableIR::RefCell { value, original } => SpecializedVariableIR::RefCell {
                value: match value {
                    Some(b) => Some(Box::new((&**b).duplicate())),
                    None => None,
                },
                original: original.duplicate(),
            },
        }
    }
}

/// A copy of an optional vector payload, structurally the same.
fn dup_opt_vec(v: &Option<VecVariable>) -> (r: Option<VecVariable>)
    ensures
        r is Some <==> v is Some,
        r matches Some(x) ==> (v matches Some(y) && struct_like(x.structure, y.structure)),
    decreases *v,
{
    match v {
        Some(payload) => Some(VecVariable { structure: payload.structure.duplicate() }),
        None => None,
    }
}

/// A copy of an optional hash-map payload, structurally the same.
#[verifier::loop_isolation(false)]
fn dup_opt_map(m: &Option<HashMapVariable>) -> (r: Option<HashMapVariable>)
    ensures
        r is Some <==> m is Some,
        r matches Some(x) ==> (m matches Some(y) && ident_like(&x.identity, &y.identity)
            && opt_str_like(&x.type_display_name, &y.type_display_name) && pair_seq_like(
            x.kv_items@,
            y.kv_items@,
        )),
    decreases *m,
{
    match m {
        Some(payload) => {
            let mut kv: Vec<(VariableIR, VariableIR)> = Vec::new();
            let mut i: usize = 0;
            while i < payload.kv_items.len()
                invariant
                    i <= payload.kv_items@.len(),
                    kv@.len() == i,
                    forall|j: int|
                        0 <= j < i ==> ir_like((#[trigger] kv@[j]).0, payload.kv_items@[j].0)
                            && ir_like(kv@[j].1, payload.kv_items@[j].1),
                decreases payload.kv_items@.len() - i,
            {
                proof {
                    assert(*m is Some);
                    assert((*m)->0 == *payload);
                    assert(decreases_to!(*m => (*m)->0));
                    assert(decreases_to!(*payload => payload.kv_items));
                    assert(decreases_to!(payload.kv_items => payload.kv_items@));
                    assert(decreases_to!(payload.kv_items@ => payload.kv_items@[i as int]));
                    assert(decreases_to!(
                        payload.kv_items@[i as int] => payload.kv_items@[i as int].0));
                    assert(decreases_to!(
                        payload.kv_items@[i as int] => payload.kv_items@[i as int].1));
                }
                let pair = &payload.kv_items[i];
                kv.push((pair.0.duplicate(), pair.1.duplicate()));
                i += 1;
            }
            proof {
                lemma_pair_seq_like_pointwise(kv@, payload.kv_items@);
            }
            Some(
                HashMapVariable {
                    identity: payload.identity.duplicate(),
                    type_display_name: dup_opt_string(&payload.type_display_name),
                    kv_items: kv,
                },
            )
        },
        None => None,
    }
}

/// A copy of an optional hash-set payload, structurally the same.
fn dup_opt_set(s: &Option<HashSetVariable>) -> (r: Option<HashSetVariable>)
    ensures
        r is Some <==> s is Some,
        r matches Some(x) ==> (s matches Some(y) && ident_like(&x.identity, &y.identity)
            && opt_str_like(&x.type_display_name, &y.type_display_name) && ir_seq_like(
            x.items@,
            y.items@,
        )),
    decreases *s,
{
    match s {
        Some(payload) => Some(
            HashSetVariable {
                identity: payload.identity.duplicate(),
                type_display_name: dup_opt_string(&payload.type_display_name),
                items: dup_members(&payload.items),
            },
        ),
        None => None,
    }
}

/// Node counts add up across a concatenation.
pub proof fn lemma_ir_seq_size_concat(a: Seq<VariableIR>, b: Seq<VariableIR>)
    ensures
        ir_seq_size(a + b) == ir_seq_size(a) + ir_seq_size(b),
    decreases a.len(),
{
    if a.len() == 0 {
        assert(a + b =~= b);
    } else {
        assert((a + b).drop_first() =~= a.drop_first() + b);
        lemma_ir_seq_size_concat(a.drop_first(), b);
    }
}

} // verus!
