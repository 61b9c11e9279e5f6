use vstd::prelude::*;
use vstd::utf8::{decode_utf8, valid_utf8};
use crate::bfs::{first_named, first_pointer_value, first_rust_enum, first_struct, spec_bfs};
use crate::ident::{ns_view, opt_name_view, NamespaceHierarchy, VariableIdentity};
use crate::ir::{
    ir_like, params_like, ArrayVariable, HashMapVariable, HashSetVariable, ScalarVariable,
    SpecializedVariableIR, StrVariable, StringVariable, StructVariable, TlsVariable, VariableIR,
    VecVariable,
};
use crate::memory::{mem_slice, MemoryGateway};
use crate::numfmt::{dec_int, i64_dec_string};
use crate::parse::{
    count_kept_members, element_matches, spec_kept_members, VariableParser,
};
use crate::scalar::{spec_try_as_number, SupportedScalar};
use crate::shim::{str_eq, str_starts_with, string_from_utf8};
use crate::types::{
    opt_view, spec_size_fuel, spec_size_in_bytes, EvaluationContext, TypeDeclaration, TypeIdentity,
};

verus! {

/// Which standard container a structure declaration is recognized as.
pub enum ContainerKind {
    Plain,
    Str,
    String,
    Vector,
    VecDeque,
    Tls,
    HashMap,
    HashSet,
    BTreeMap,
    BTreeSet,
    Cell,
    RefCell,
}

/// Whether a declared name starts with the given prefix.
pub open spec fn name_starts_with(name: Option<Seq<char>>, prefix: Seq<char>) -> bool {
    match name {
        Some(n) => n.len() >= prefix.len() && n.subrange(0, prefix.len() as int) == prefix,
        None => false,
    }
}

/// The recognition rules of the specialization layer, applied in order:
/// the first rule whose name test and namespace containment test both hold
/// wins, and a structure matching none stays a plain structure.
pub open spec fn spec_recognize(name: Option<Seq<char>>, ns: &NamespaceHierarchy) -> ContainerKind {
    if name == Some("&str"@) {
        ContainerKind::Str
    } else if name == Some("String"@) {
        ContainerKind::String
    } else if name_starts_with(name, "Vec"@) && ns.spec_contains(seq!["vec"@]) {
        ContainerKind::Vector
    } else if name_starts_with(name, "VecDeque"@) && ns.spec_contains(
        seq!["collections"@, "vec_deque"@],
    ) {
        ContainerKind::VecDeque
    } else if ns.spec_contains(seq!["std"@, "thread"@, "local"@, "fast"@]) {
        ContainerKind::Tls
    } else if name_starts_with(name, "HashMap"@) && ns.spec_contains(
        seq!["collections"@, "hash"@, "map"@],
    ) {
        ContainerKind::HashMap
    } else if name_starts_with(name, "HashSet"@) && ns.spec_contains(
        seq!["collections"@, "hash"@, "set"@],
    ) {
        ContainerKind::HashSet
    } else if name_starts_with(name, "BTreeMap"@) && ns.spec_contains(
        seq!["collections"@, "btree"@, "map"@],
    ) {
        ContainerKind::BTreeMap
    } else if name_starts_with(name, "BTreeSet"@) && ns.spec_contains(
        seq!["collections"@, "btree"@, "set"@],
    ) {
        ContainerKind::BTreeSet
    } else if name_starts_with(name, "Cell"@) && ns.spec_contains(seq!["cell"@]) {
        ContainerKind::Cell
    } else if name_starts_with(name, "RefCell"@) && ns.spec_contains(seq!["cell"@]) {
        ContainerKind::RefCell
    } else {
        ContainerKind::Plain
    }
}

/// The container kind a specialized node carries.
pub open spec fn variant_kind(sp: SpecializedVariableIR) -> ContainerKind {
    match sp {
        SpecializedVariableIR::Vector { .. } => ContainerKind::Vector,
        SpecializedVariableIR::VecDeque { .. } => ContainerKind::VecDeque,
        SpecializedVariableIR::String { .. } => ContainerKind::String,
        SpecializedVariableIR::Str { .. } => ContainerKind::Str,
        SpecializedVariableIR::Tls { .. } => ContainerKind::Tls,
        SpecializedVariableIR::HashMap { .. } => ContainerKind::HashMap,
        SpecializedVariableIR::HashSet { .. } => ContainerKind::HashSet,
        SpecializedVariableIR::BTreeMap { .. } => ContainerKind::BTreeMap,
        SpecializedVariableIR::BTreeSet { .. } => ContainerKind::BTreeSet,
        SpecializedVariableIR::Cell { .. } => ContainerKind::Cell,
        SpecializedVariableIR::RefCell { .. } => ContainerKind::RefCell,
    }
}

/// Applies the recognition rules to a declared name and namespace path.
pub fn recognize(name: &Option<String>, ns: &NamespaceHierarchy) -> (k: ContainerKind)
    ensures
        k == spec_recognize(opt_view(name), ns),
{
    let exact_str = match name {
        Some(n) => str_eq(n.as_str(), "&str"),
        None => false,
    };
    if exact_str {
        return ContainerKind::Str;
    }
    let exact_string = match name {
        Some(n) => str_eq(n.as_str(), "String"),
        None => false,
    };
    if exact_string {
        return ContainerKind::String;
    }
    if starts(name, "Vec") && contains1(ns, "vec") {
        return ContainerKind::Vector;
    }
    if starts(name, "VecDeque") && contains2(ns, "collections", "vec_deque") {
        return ContainerKind::VecDeque;
    }
    if contains4(ns, "std", "thread", "local", "fast") {
        return ContainerKind::Tls;
    }
    if starts(name, "HashMap") && contains3(ns, "collections", "hash", "map") {
        return ContainerKind::HashMap;
    }
    if starts(name, "HashSet") && contains3(ns, "collections", "hash", "set") {
        return ContainerKind::HashSet;
    }
    if starts(name, "BTreeMap") && contains3(ns, "collections", "btree", "map") {
        return ContainerKind::BTreeMap;
    }
    if starts(name, "BTreeSet") && contains3(ns, "collections", "btree", "set") {
        return ContainerKind::BTreeSet;
    }
    if starts(name, "Cell") && contains1(ns, "cell") {
        return ContainerKind::Cell;
    }
    if starts(name, "RefCell") && contains1(ns, "cell") {
        return ContainerKind::RefCell;
    }
    ContainerKind::Plain
}

/// Prefix test on an optional declared name.
fn starts(name: &Option<String>, prefix: &str) -> (r: bool)
    ensures
        r == name_starts_with(opt_view(name), prefix@),
{
    match name {
        Some(n) => str_starts_with(n.as_str(), prefix),
        None => false,
    }
}

fn contains1(ns: &NamespaceHierarchy, a: &str) -> (r: bool)
    ensures
        r == ns.spec_contains(seq![a@]),
{
    let mut needle: Vec<&str> = Vec::new();
    needle.push(a);
    proof {
        assert(needle@.map_values(|s: &str| s@) =~= seq![a@]);
    }
    ns.contains(&needle)
}

fn contains2(ns: &NamespaceHierarchy, a: &str, b: &str) -> (r: bool)
    ensures
        r == ns.spec_contains(seq![a@, b@]),
{
    let mut needle: Vec<&str> = Vec::new();
    needle.push(a);
    needle.push(b);
    proof {
        assert(needle@.map_values(|s: &str| s@) =~= seq![a@, b@]);
    }
    ns.contains(&needle)
}

fn contains3(ns: &NamespaceHierarchy, a: &str, b: &str, c: &str) -> (r: bool)
    ensures
        r == ns.spec_contains(seq![a@, b@, c@]),
{
    let mut needle: Vec<&str> = Vec::new();
    needle.push(a);
    needle.push(b);
    needle.push(c);
    proof {
        assert(needle@.map_values(|s: &str| s@) =~= seq![a@, b@, c@]);
    }
    ns.contains(&needle)
}

fn contains4(ns: &NamespaceHierarchy, a: &str, b: &str, c: &str, d: &str) -> (r: bool)
    ensures
        r == ns.spec_contains(seq![a@, b@, c@, d@]),
{
    let mut needle: Vec<&str> = Vec::new();
    needle.push(a);
    needle.push(b);
    needle.push(c);
    needle.push(d);
    proof {
        assert(needle@.map_values(|s: &str| s@) =~= seq![a@, b@, c@, d@]);
    }
    ns.contains(&needle)
}

/// The promoted value of the first breadth-first node named `name`, when
/// that node is an integer scalar.
pub open spec fn spec_field_number(root: VariableIR, name: Seq<char>) -> Option<i64> {
    match first_named(spec_bfs(root), name) {
        Some(VariableIR::Scalar(s)) => spec_try_as_number(s.value),
        _ => None,
    }
}

/// The first type parameter of the given name.
pub open spec fn spec_param_lookup(
    params: Seq<(String, Option<TypeIdentity>)>,
    name: Seq<char>,
) -> Option<Option<TypeIdentity>>
    decreases params.len(),
{
    if params.len() == 0 {
        None
    } else if params[0].0@ == name {
        Some(params[0].1)
    } else {
        spec_param_lookup(params.drop_first(), name)
    }
}

/// Looks a type parameter up by name.
fn param_lookup(params: &Vec<(String, Option<TypeIdentity>)>, name: &str) -> (r: Option<
    Option<TypeIdentity>,
>)
    ensures
        r == spec_param_lookup(params@, name@),
{
    let mut k: usize = 0;
    proof {
        assert(params@.skip(0) =~= params@);
    }
    while k < params.len()
        invariant
            k <= params@.len(),
            spec_param_lookup(params@, name@) == spec_param_lookup(params@.skip(k as int), name@),
        decreases params@.len() - k,
    {
        proof {
            assert(params@.skip(k as int)[0] == params@[k as int]);
            assert(params@.skip(k as int).drop_first() =~= params@.skip(k + 1));
        }
        if str_eq(params[k].0.as_str(), name) {
            return Some(params[k].1);
        }
        k += 1;
    }
    proof {
        assert(params@.skip(k as int) =~= Seq::<(String, Option<TypeIdentity>)>::empty());
    }
    None
}

/// What a materialized string slice guarantees: when the `length` and
/// `data_ptr` landmarks are present, the length is nonnegative, the bytes
/// at the pointer are readable and valid UTF-8, the payload holds exactly
/// those bytes decoded, under the raw structure's identity; otherwise the
/// payload is absent.
pub open spec fn str_payload_ok<M: MemoryGateway>(
    gw: &M,
    structure: StructVariable,
    payload: Option<StrVariable>,
) -> bool {
    let root = VariableIR::Struct(structure);
    match (spec_field_number(root, "length"@), first_pointer_value(spec_bfs(root), "data_ptr"@)) {
        (Some(len), Some(ptr)) => if 0 <= len && gw.readable(ptr as int, len as int) && valid_utf8(
            mem_slice(gw.mem(), ptr as int, len as int),
        ) {
            payload matches Some(sv) && sv.value@ == decode_utf8(
                mem_slice(gw.mem(), ptr as int, len as int),
            ) && opt_name_view(&sv.identity.name) == opt_name_view(&structure.identity.name)
                && ns_view(&sv.identity.namespace) == ns_view(&structure.identity.namespace)
        } else {
            payload is None
        },
        _ => payload is None,
    }
}

/// What a materialized owned string guarantees, from the `len` and
/// `pointer` landmarks, as for string slices.
pub open spec fn string_payload_ok<M: MemoryGateway>(
    gw: &M,
    structure: StructVariable,
    payload: Option<StringVariable>,
) -> bool {
    let root = VariableIR::Struct(structure);
    match (spec_field_number(root, "len"@), first_pointer_value(spec_bfs(root), "pointer"@)) {
        (Some(len), Some(ptr)) => if 0 <= len && gw.readable(ptr as int, len as int) && valid_utf8(
            mem_slice(gw.mem(), ptr as int, len as int),
        ) {
            payload matches Some(sv) && sv.value@ == decode_utf8(
                mem_slice(gw.mem(), ptr as int, len as int),
            ) && opt_name_view(&sv.identity.name) == opt_name_view(&structure.identity.name)
                && ns_view(&sv.identity.namespace) == ns_view(&structure.identity.namespace)
        } else {
            payload is None
        },
        _ => payload is None,
    }
}

/// What a materialized vector guarantees: the `len`, `cap` and `pointer`
/// landmarks and the element type parameter `T` are present, `len * size`
/// bytes at the pointer are readable, and the payload is a synthetic
/// structure of a decoded buffer and the capacity.
pub open spec fn vector_payload_ok<M: MemoryGateway>(
    gw: &M,
    graph: &crate::types::ComplexType,
    structure: StructVariable,
    payload: Option<VecVariable>,
) -> bool {
    let root = VariableIR::Struct(structure);
    let len_o = spec_field_number(root, "len"@);
    let cap_o = spec_field_number(root, "cap"@);
    let ptr_o = first_pointer_value(spec_bfs(root), "pointer"@);
    let t_o = spec_param_lookup(structure.type_params@, "T"@);
    match (len_o, cap_o, ptr_o, t_o) {
        (Some(len), Some(cap), Some(ptr), Some(Some(el))) => {
            match spec_size_in_bytes(graph, el, spec_size_fuel(graph)) {
                Some(el_size) => if 0 <= len && 0 <= cap && len * el_size <= u64::MAX
                    && gw.readable(ptr as int, len * el_size) {
                    payload matches Some(v) && vec_struct_ok(
                        gw,
                        graph,
                        structure,
                        el,
                        el_size as int,
                        len,
                        cap,
                        ptr,
                        v.structure,
                    )
                } else {
                    payload is None
                },
                None => payload is None,
            }
        },
        _ => payload is None,
    }
}

/// The shape of the synthetic structure a vector materializes into: a
/// decoded buffer of `len` elements, each pinned to its chunk of the bytes
/// read at the pointer, and the capacity as a word-sized scalar.
pub open spec fn vec_struct_ok<M: MemoryGateway>(
    gw: &M,
    graph: &crate::types::ComplexType,
    structure: StructVariable,
    el: TypeIdentity,
    el_size: int,
    len: i64,
    cap: i64,
    ptr: u64,
    sv: StructVariable,
) -> bool {
    &&& opt_name_view(&sv.identity.name) == opt_name_view(&structure.identity.name)
    &&& opt_view(&sv.type_display_name) == opt_view(&structure.type_display_name)
    &&& params_like(sv.type_params@, structure.type_params@)
    &&& sv.members@.len() == 2
    &&& (sv.members@[0] matches VariableIR::Array(arr) && arr.items matches Some(items) && {
        &&& items@.len() == len
        &&& (forall|j: int|
            0 <= j < items@.len() ==> (#[trigger] items@[j]).spec_name() == Some(dec_int(j)))
        &&& (forall|j: int|
            0 <= j < items@.len() ==> element_matches(
                graph,
                el,
                mem_slice(gw.mem(), ptr + j * el_size, el_size),
                #[trigger] items@[j],
            ))
    })
    &&& (sv.members@[1] matches VariableIR::Scalar(c) && c.value == Some(
        SupportedScalar::Usize(cap as u64),
    ))
}

/// The index of the first segment equal to `x`, if any.
pub open spec fn first_seg_pos(s: Seq<Seq<char>>, x: Seq<char>) -> Option<int>
    decreases s.len(),
{
    if s.len() == 0 {
        None
    } else if s[0] == x {
        Some(0int)
    } else {
        match first_seg_pos(s.drop_first(), x) {
            Some(i) => Some(i + 1),
            None => None,
        }
    }
}

/// The first occurrence of `x` is at `i` exactly when `x` stands there and
/// nowhere earlier.
pub proof fn lemma_first_seg_pos(s: Seq<Seq<char>>, x: Seq<char>, i: int)
    requires
        0 <= i < s.len(),
        s[i] == x,
        forall|j: int| 0 <= j < i ==> s[j] != x,
    ensures
        first_seg_pos(s, x) == Some(i),
    decreases s.len(),
{
    if i > 0 {
        lemma_first_seg_pos(s.drop_first(), x, i - 1);
    }
}

/// A sequence without `x` has no first occurrence of it.
pub proof fn lemma_no_seg_pos(s: Seq<Seq<char>>, x: Seq<char>)
    requires
        forall|j: int| 0 <= j < s.len() ==> s[j] != x,
    ensures
        first_seg_pos(s, x) is None,
    decreases s.len(),
{
    if s.len() > 0 {
        lemma_no_seg_pos(s.drop_first(), x);
    }
}

/// The user-facing name of a thread-local value: the namespace segment just
/// before the accessor's own segment, when there is one.
pub open spec fn spec_tls_name(ns: &NamespaceHierarchy) -> Option<Seq<char>> {
    match first_seg_pos(ns_view(ns), "__getit"@) {
        Some(i) => if i > 0 {
            Some(ns_view(ns)[i - 1])
        } else {
            None
        },
        None => None,
    }
}

/// What a materialized thread-local wrapper guarantees: the type parameter
/// `T` and the `inner` landmark lead to the wrapper's option; an
/// uninitialized slot leaves the value absent, an initialized one exposes
/// the variant's first field, and any break in the chain leaves the whole
/// payload absent.
pub open spec fn tls_payload_ok(
    graph: &crate::types::ComplexType,
    structure: StructVariable,
    payload: Option<TlsVariable>,
) -> bool {
    let root = VariableIR::Struct(structure);
    match spec_param_lookup(structure.type_params@, "T"@) {
        Some(Some(t_id)) => match first_named(spec_bfs(root), "inner"@) {
            Some(inner) => match first_rust_enum(spec_bfs(inner), "value"@) {
                Some(e) => match e.value {
                    Some(b) => match *b {
                        VariableIR::Struct(ov) => if opt_view(&ov.type_display_name) == Some(
                            "None"@,
                        ) {
                            payload matches Some(t) && t.inner_value is None && tls_meta_ok(
                                graph,
                                structure,
                                t_id,
                                t,
                            )
                        } else {
                            match first_named(spec_bfs(*b), "0"@) {
                                Some(zero) => payload matches Some(t) && (
                                t.inner_value matches Some(iv) && ir_like(*iv, zero))
                                    && tls_meta_ok(graph, structure, t_id, t),
                                None => payload is None,
                            }
                        },
                        _ => payload is None,
                    },
                    None => payload is None,
                },
                None => payload is None,
            },
            None => payload is None,
        },
        _ => payload is None,
    }
}

/// The bookkeeping a thread-local payload carries: the name taken from the
/// namespace and the display name of the wrapped type.
pub open spec fn tls_meta_ok(
    graph: &crate::types::ComplexType,
    structure: StructVariable,
    t_id: TypeIdentity,
    t: TlsVariable,
) -> bool {
    &&& opt_name_view(&t.identity.name) == spec_tls_name(&structure.identity.namespace)
    &&& opt_view(&t.inner_type) == graph.spec_type_name(t_id)
}

/// The bucket indices a control-byte array marks occupied, in ascending
/// order: a bucket is occupied exactly when the top bit of its control
/// byte is clear.
pub open spec fn occupied_slots(ctrl: Seq<u8>) -> Seq<int>
    decreases ctrl.len(),
{
    if ctrl.len() == 0 {
        Seq::empty()
    } else {
        let rest = occupied_slots(ctrl.drop_last());
        if ctrl.last() & 0x80 == 0 {
            rest.push(ctrl.len() - 1)
        } else {
            rest
        }
    }
}

/// The bytes of the bucket stored `slot + 1` tuples below the control
/// array: present when the offset stays on the address line and the read
/// serves.
pub open spec fn bucket_bytes<M: MemoryGateway>(
    gw: &M,
    ptr: u64,
    slot: int,
    size: u64,
) -> Option<Seq<u8>> {
    let off = (slot + 1) * size;
    if off <= u64::MAX && off <= ptr && gw.readable(ptr - off, size as int) {
        Some(mem_slice(gw.mem(), ptr - off, size as int))
    } else {
        None
    }
}

/// What one materialized entry guarantees: the key and the value are the
/// reified first and second member of the tuple read from the bucket.
pub open spec fn pair_matches<M: MemoryGateway>(
    gw: &M,
    graph: &crate::types::ComplexType,
    kv_id: TypeIdentity,
    ptr: u64,
    size: u64,
    slot: int,
    pair: (VariableIR, VariableIR),
) -> bool {
    let b = bucket_bytes(gw, ptr, slot, size);
    match graph.types@[kv_id.0 as int] {
        TypeDeclaration::Structure { members, .. } => {
            &&& crate::parse::member_matches(graph, spec_kept_members(members@)[0], b, pair.0)
            &&& crate::parse::member_matches(graph, spec_kept_members(members@)[1], b, pair.1)
        },
        _ => false,
    }
}

/// Whether a key-value tuple type reifies as a plain two-member structure.
pub open spec fn kv_pair_shape(graph: &crate::types::ComplexType, kv: TypeIdentity) -> bool {
    kv.0 < graph.types@.len() && (graph.types@[kv.0 as int] matches TypeDeclaration::Structure {
        name,
        namespaces,
        members,
        ..
    } && spec_recognize(opt_view(&name), &namespaces) is Plain && spec_kept_members(members@).len()
        == 2)
}

/// What a materialized hash table guarantees: the `pointer`,
/// `bucket_mask` and `table` landmarks with a two-member tuple parameter
/// lead to one entry per occupied control byte, in ascending bucket order,
/// each entry reified from its bucket's bytes; a break in the chain, an
/// unreadable control array or an exhausted recursion budget leaves the
/// payload absent.
pub open spec fn hashmap_payload_ok<M: MemoryGateway>(
    gw: &M,
    graph: &crate::types::ComplexType,
    fuel: int,
    structure: StructVariable,
    pairs: Option<Seq<(VariableIR, VariableIR)>>,
) -> bool {
    let root = VariableIR::Struct(structure);
    let ptr_o = first_pointer_value(spec_bfs(root), "pointer"@);
    let mask_o = spec_field_number(root, "bucket_mask"@);
    let table_o = first_struct(spec_bfs(root), "table"@);
    match (ptr_o, mask_o, table_o) {
        (Some(ptr), Some(mask), Some(table)) => match spec_param_lookup(
            table.type_params@,
            "T"@,
        ) {
            Some(Some(kv_id)) => match spec_size_in_bytes(graph, kv_id, spec_size_fuel(graph)) {
                Some(kv_size) => if 0 <= mask && 2 <= fuel && gw.readable(ptr as int, mask + 1)
                    && kv_pair_shape(graph, kv_id) {
                    let slots = occupied_slots(mem_slice(gw.mem(), ptr as int, mask + 1));
                    pairs matches Some(ps) && ps.len() == slots.len() && (forall|k: int|
                        0 <= k < ps.len() ==> pair_matches(
                            gw,
                            graph,
                            kv_id,
                            ptr,
                            kv_size,
                            slots[k],
                            #[trigger] ps[k],
                        ))
                } else {
                    pairs is None
                },
                None => pairs is None,
            },
            _ => pairs is None,
        },
        _ => pairs is None,
    }
}

/// What one materialized set element guarantees: it is the reified first
/// member of the tuple read from the bucket.
pub open spec fn key_matches<M: MemoryGateway>(
    gw: &M,
    graph: &crate::types::ComplexType,
    kv_id: TypeIdentity,
    ptr: u64,
    size: u64,
    slot: int,
    key: VariableIR,
) -> bool {
    let b = bucket_bytes(gw, ptr, slot, size);
    match graph.types@[kv_id.0 as int] {
        TypeDeclaration::Structure { members, .. } => crate::parse::member_matches(
            graph,
            spec_kept_members(members@)[0],
            b,
            key,
        ),
        _ => false,
    }
}

/// What a materialized hash set guarantees: the same table walk as for
/// maps, keeping one key per occupied bucket in ascending bucket order.
pub open spec fn hashset_payload_ok<M: MemoryGateway>(
    gw: &M,
    graph: &crate::types::ComplexType,
    fuel: int,
    structure: StructVariable,
    items: Option<Seq<VariableIR>>,
) -> bool {
    let root = VariableIR::Struct(structure);
    let ptr_o = first_pointer_value(spec_bfs(root), "pointer"@);
    let mask_o = spec_field_number(root, "bucket_mask"@);
    let table_o = first_struct(spec_bfs(root), "table"@);
    match (ptr_o, mask_o, table_o) {
        (Some(ptr), Some(mask), Some(table)) => match spec_param_lookup(
            table.type_params@,
            "T"@,
        ) {
            Some(Some(kv_id)) => match spec_size_in_bytes(graph, kv_id, spec_size_fuel(graph)) {
                Some(kv_size) => if 0 <= mask && 2 <= fuel && gw.readable(ptr as int, mask + 1)
                    && kv_pair_shape(graph, kv_id) {
                    let slots = occupied_slots(mem_slice(gw.mem(), ptr as int, mask + 1));
                    items matches Some(is) && is.len() == slots.len() && (forall|k: int|
                        0 <= k < is.len() ==> key_matches(
                            gw,
                            graph,
                            kv_id,
                            ptr,
                            kv_size,
                            slots[k],
                            #[trigger] is[k],
                        ))
                } else {
                    items is None
                },
                None => items is None,
            },
            _ => items is None,
        },
        _ => items is None,
    }
}

/// The wrapped value a cell exposes: the `value` member, unwrapped once
/// more through the interior-mutability shell when that member is itself a
/// structure with a `value` member.
pub open spec fn spec_cell_target(structure: StructVariable) -> Option<VariableIR> {
    match first_named(structure.members@, "value"@) {
        Some(m1) => match m1 {
            VariableIR::Struct(s1) => match first_named(s1.members@, "value"@) {
                Some(m2) => Some(m2),
                None => Some(m1),
            },
            _ => Some(m1),
        },
        None => None,
    }
}

/// What an unwrapped cell guarantees: a structurally-same copy of the
/// wrapped value, present exactly when the `value` member is.
pub open spec fn cell_payload_ok(
    structure: StructVariable,
    payload: Option<Box<VariableIR>>,
) -> bool {
    match spec_cell_target(structure) {
        Some(target) => payload matches Some(b) && ir_like(*b, target),
        None => payload is None,
    }
}

/// A reference to the first element of `members` named `name`.
#[verifier::loop_isolation(false)]
fn find_member_named<'x>(members: &'x Vec<VariableIR>, name: &str) -> (r: Option<&'x VariableIR>)
    ensures
        match first_named(members@, name@) {
            Some(n) => r matches Some(out) && *out == n,
            None => r is None,
        },
{
    let ghost all = members@;
    proof {
        assert(all.skip(0) =~= all);
    }
    let mut i: usize = 0;
    while i < members.len()
        invariant
            i <= members@.len(),
            first_named(all, name@) == first_named(all.skip(i as int), name@),
        decreases members@.len() - i,
    {
        proof {
            assert(all.skip(i as int)[0] == all[i as int]);
            assert(all.skip(i as int).drop_first() =~= all.skip(i + 1));
        }
        let is_match = match &members[i].identity().name {
            Some(n) => str_eq(n.as_str(), name),
            None => false,
        };
        proof {
            assert(is_match == (all[i as int].spec_name() == Some(name@)));
        }
        if is_match {
            return Some(&members[i]);
        }
        i += 1;
    }
    proof {
        assert(all.skip(i as int) =~= Seq::<VariableIR>::empty());
    }
    None
}

/// What a materialized double-ended queue guarantees: the `head`, `tail`,
/// `cap` and `pointer` landmarks and the element type parameter `T` are
/// present, the indices lie inside a nonempty ring of `cap` slots whose
/// buffer is readable, and the payload is a synthetic structure of the
/// queue's elements in queue order and the capacity.
pub open spec fn vecdeque_payload_ok<M: MemoryGateway>(
    gw: &M,
    graph: &crate::types::ComplexType,
    structure: StructVariable,
    payload: Option<VecVariable>,
) -> bool {
    let root = VariableIR::Struct(structure);
    let head_o = spec_field_number(root, "head"@);
    let tail_o = spec_field_number(root, "tail"@);
    let cap_o = spec_field_number(root, "cap"@);
    let ptr_o = first_pointer_value(spec_bfs(root), "pointer"@);
    let t_o = spec_param_lookup(structure.type_params@, "T"@);
    match (head_o, tail_o, cap_o, ptr_o, t_o) {
        (Some(head), Some(tail), Some(cap), Some(ptr), Some(Some(el))) => {
            match spec_size_in_bytes(graph, el, spec_size_fuel(graph)) {
                Some(el_size) => if 0 <= head < cap && 0 <= tail < cap && cap * el_size
                    <= u64::MAX && gw.readable(ptr as int, cap * el_size) {
                    let len = (head + cap - tail) % (cap as int);
                    payload matches Some(v) && ring_struct_ok(
                        gw,
                        graph,
                        structure,
                        el,
                        el_size as int,
                        tail,
                        cap,
                        len,
                        ptr,
                        v.structure,
                    )
                } else {
                    payload is None
                },
                None => payload is None,
            }
        },
        _ => payload is None,
    }
}

/// The shape of the synthetic structure a ring buffer materializes into:
/// element `i` of the buffer is decoded from slot `(tail + i) % cap`.
pub open spec fn ring_struct_ok<M: MemoryGateway>(
    gw: &M,
    graph: &crate::types::ComplexType,
    structure: StructVariable,
    el: TypeIdentity,
    el_size: int,
    tail: i64,
    cap: i64,
    len: int,
    ptr: u64,
    sv: StructVariable,
) -> bool {
    &&& opt_name_view(&sv.identity.name) == opt_name_view(&structure.identity.name)
    &&& opt_view(&sv.type_display_name) == opt_view(&structure.type_display_name)
    &&& params_like(sv.type_params@, structure.type_params@)
    &&& sv.members@.len() == 2
    &&& (sv.members@[0] matches VariableIR::Array(arr) && arr.items matches Some(items) && {
        &&& items@.len() == len
        &&& (forall|j: int|
            0 <= j < items@.len() ==> (#[trigger] items@[j]).spec_name() == Some(dec_int(j)))
        &&& (forall|j: int|
            0 <= j < items@.len() ==> element_matches(
                graph,
                el,
                mem_slice(gw.mem(), ptr + ((tail + j) % (cap as int)) * el_size, el_size),
                #[trigger] items@[j],
            ))
    })
    &&& (sv.members@[1] matches VariableIR::Scalar(c) && c.value == Some(
        SupportedScalar::Usize(cap as u64),
    ))
}

/// Recognizes and re-projects standard containers out of raw structures.
pub struct VariableParserExtension<'a, 'b> {
    pub parser: &'b VariableParser<'a>,
}

impl<'a, 'b> VariableParserExtension<'a, 'b> {
    pub fn new(parser: &'b VariableParser<'a>) -> (r: Self)
        ensures
            r.parser == parser,
    {
        VariableParserExtension { parser }
    }

    /// Materializes a `&str`: reads `length` bytes at `data_ptr` and
    /// decodes them as UTF-8.  Any failure leaves the payload absent; the
    /// raw structure is preserved either way.
    pub fn parse_str<M: MemoryGateway>(
        &self,
        gw: &mut M,
        ctx: &EvaluationContext,
        structure: StructVariable,
    ) -> (r: SpecializedVariableIR)
        ensures
            final(gw).mem() == old(gw).mem(),
            forall|a: int, l: int|
                #[trigger] final(gw).readable(a, l) == old(gw).readable(a, l),
            final(gw).reads() >= old(gw).reads(),
            r matches SpecializedVariableIR::Str { string, original } && original == structure
                && str_payload_ok(old(gw), structure, string),
    {
        let ir = VariableIR::Struct(structure);
        let string = self.parse_str_inner(gw, ctx, &ir);
        let original = match ir {
            VariableIR::Struct(s) => s,
            _ => vstd::pervasive::unreached(),
        };
        SpecializedVariableIR::Str { string, original }
    }

    fn parse_str_inner<M: MemoryGateway>(
        &self,
        gw: &mut M,
        ctx: &EvaluationContext,
        ir: &VariableIR,
    ) -> (r: Option<StrVariable>)
        requires
            *ir matches VariableIR::Struct(_),
        ensures
            final(gw).mem() == old(gw).mem(),
            forall|a: int, l: int|
                #[trigger] final(gw).readable(a, l) == old(gw).readable(a, l),
            final(gw).reads() >= old(gw).reads(),
            (*ir) matches VariableIR::Struct(structure) ==> str_payload_ok(
                old(gw),
                structure,
                r,
            ),
    {
        let len = match ir.assume_field_as_scalar_number("length") {
            Ok(n) => n,
            Err(_) => {
                return None;
            },
        };
        let data_ptr = match ir.assume_field_as_pointer("data_ptr") {
            Ok(p) => p,
            Err(_) => {
                return None;
            },
        };
        if len < 0 {
            return None;
        }
        let data = match gw.read(ctx.pid, data_ptr, len as u64) {
            Ok(d) => d,
            Err(_) => {
                return None;
            },
        };
        match string_from_utf8(data) {
            Some(value) => Some(StrVariable { identity: ir.identity().duplicate(), value }),
            None => None,
        }
    }

    /// Materializes an owned string: reads `len` bytes at `pointer` and
    /// decodes them as UTF-8.
    pub fn parse_string<M: MemoryGateway>(
        &self,
        gw: &mut M,
        ctx: &EvaluationContext,
        structure: StructVariable,
    ) -> (r: SpecializedVariableIR)
        ensures
            final(gw).mem() == old(gw).mem(),
            forall|a: int, l: int|
                #[trigger] final(gw).readable(a, l) == old(gw).readable(a, l),
            final(gw).reads() >= old(gw).reads(),
            r matches SpecializedVariableIR::String { string, original } && original == structure
                && string_payload_ok(old(gw), structure, string),
    {
        let ir = VariableIR::Struct(structure);
        let string = self.parse_string_inner(gw, ctx, &ir);
        let original = match ir {
            VariableIR::Struct(s) => s,
            _ => vstd::pervasive::unreached(),
        };
        SpecializedVariableIR::String { string, original }
    }

    fn parse_string_inner<M: MemoryGateway>(
        &self,
        gw: &mut M,
        ctx: &EvaluationContext,
        ir: &VariableIR,
    ) -> (r: Option<StringVariable>)
        requires
            *ir matches VariableIR::Struct(_),
        ensures
            final(gw).mem() == old(gw).mem(),
            forall|a: int, l: int|
                #[trigger] final(gw).readable(a, l) == old(gw).readable(a, l),
            final(gw).reads() >= old(gw).reads(),
            (*ir) matches VariableIR::Struct(structure) ==> string_payload_ok(
                old(gw),
                structure,
                r,
            ),
    {
        let len = match ir.assume_field_as_scalar_number("len") {
            Ok(n) => n,
            Err(_) => {
                return None;
            },
        };
        let pointer = match ir.assume_field_as_pointer("pointer") {
            Ok(p) => p,
            Err(_) => {
                return None;
            },
        };
        if len < 0 {
            return None;
        }
        let data = match gw.read(ctx.pid, pointer, len as u64) {
            Ok(d) => d,
            Err(_) => {
                return None;
            },
        };
        match string_from_utf8(data) {
            Some(value) => Some(StringVariable { identity: ir.identity().duplicate(), value }),
            None => None,
        }
    }

    /// Materializes a vector: reads `len * size_of(T)` bytes at `pointer`,
    /// splits them into `len` chunks, reifies each as an element, and
    /// exposes a synthetic structure of the buffer and the capacity.
    pub fn parse_vector<M: MemoryGateway>(
        &self,
        gw: &mut M,
        ctx: &EvaluationContext,
        structure: StructVariable,
        fuel: usize,
    ) -> (r: SpecializedVariableIR)
        requires
            1 <= fuel,
        ensures
            final(gw).mem() == old(gw).mem(),
            forall|a: int, l: int|
                #[trigger] final(gw).readable(a, l) == old(gw).readable(a, l),
            final(gw).reads() >= old(gw).reads(),
            r matches SpecializedVariableIR::Vector { vec, original } && original == structure
                && vector_payload_ok(old(gw), self.parser.graph, structure, vec),
        decreases fuel, 2int,
    {
        let ir = VariableIR::Struct(structure);
        let vec = self.parse_vector_inner(gw, ctx, &ir, fuel);
        let original = match ir {
            VariableIR::Struct(s) => s,
            _ => vstd::pervasive::unreached(),
        };
        SpecializedVariableIR::Vector { vec, original }
    }

    #[verifier::loop_isolation(false)]
    fn parse_vector_inner<M: MemoryGateway>(
        &self,
        gw: &mut M,
        ctx: &EvaluationContext,
        ir: &VariableIR,
        fuel: usize,
    ) -> (r: Option<VecVariable>)
        requires
            1 <= fuel,
            *ir matches VariableIR::Struct(_),
        ensures
            final(gw).mem() == old(gw).mem(),
            forall|a: int, l: int|
                #[trigger] final(gw).readable(a, l) == old(gw).readable(a, l),
            final(gw).reads() >= old(gw).reads(),
            (*ir) matches VariableIR::Struct(structure) ==> vector_payload_ok(
                old(gw),
                self.parser.graph,
                structure,
                r,
            ),
        decreases fuel, 1int,
    {
        let structure_ref = match ir {
            VariableIR::Struct(s) => s,
            _ => vstd::pervasive::unreached(),
        };
        let inner_type = match param_lookup(&structure_ref.type_params, "T") {
            Some(Some(t)) => t,
            _ => {
                return None;
            },
        };
        let len = match ir.assume_field_as_scalar_number("len") {
            Ok(n) => n,
            Err(_) => {
                return None;
            },
        };
        let cap = match ir.assume_field_as_scalar_number("cap") {
            Ok(n) => n,
            Err(_) => {
                return None;
            },
        };
        let data_ptr = match ir.assume_field_as_pointer("pointer") {
            Ok(p) => p,
            Err(_) => {
                return None;
            },
        };
        if len < 0 || cap < 0 {
            return None;
        }
        let el_size = match self.parser.graph.type_size_in_bytes(ctx, inner_type) {
            Some(s) => s,
            None => {
                return None;
            },
        };
        let total = match (len as u64).checked_mul(el_size) {
            Some(t) => t,
            None => {
                return None;
            },
        };
        let data = match gw.read(ctx.pid, data_ptr, total) {
            Ok(d) => d,
            Err(_) => {
                return None;
            },
        };
        proof {
            assert(data@.len() == vstd::std_specs::vec::spec_vec_len(&data));
        }
        let ghost the_mem = gw.mem();
        let mut items: Vec<VariableIR> = Vec::new();
        let mut j: u64 = 0;
        while j < len as u64
            invariant
                j <= len as u64,
                0 <= len,
                el_size == spec_size_in_bytes(
                    self.parser.graph,
                    inner_type,
                    spec_size_fuel(self.parser.graph),
                )->Some_0,
                total == len * el_size,
                data@.len() == total,
                data@ == mem_slice(the_mem, data_ptr as int, total as int),
                gw.mem() == the_mem,
                gw.mem() == old(gw).mem(),
                forall|a: int, l: int| #[trigger] gw.readable(a, l) == old(gw).readable(a, l),
                gw.reads() >= old(gw).reads(),
                items@.len() == j,
                forall|k: int|
                    0 <= k < j ==> (#[trigger] items@[k]).spec_name() == Some(dec_int(k)),
                forall|k: int|
                    0 <= k < j ==> element_matches(
                        self.parser.graph,
                        inner_type,
                        mem_slice(the_mem, data_ptr + k * el_size, el_size as int),
                        #[trigger] items@[k],
                    ),
            decreases len as u64 - j,
        {
            proof {
                assert(j * el_size + el_size <= total) by (nonlinear_arith)
                    requires
                        j < len as u64,
                        total == len * el_size,
                        el_size >= 0,
                        j >= 0,
                ;
                assert(0 <= j * el_size) by (nonlinear_arith)
                    requires
                        j >= 0,
                        el_size >= 0,
                ;
            }
            let start = (j * el_size) as usize;
            let end = (j * el_size + el_size) as usize;
            let chunk = vstd::slice::slice_to_vec(
                vstd::slice::slice_subrange(data.as_slice(), start, end),
            );
            proof {
                assert(chunk@ =~= mem_slice(the_mem, data_ptr + j * el_size, el_size as int));
            }
            let child = self.parser.parse_inner(
                gw,
                ctx,
                VariableIdentity::no_namespace(Some(i64_dec_string(j as i64))),
                Some(chunk),
                inner_type,
                fuel - 1,
            );
            items.push(child);
            j += 1;
        }
        let buf_display = match self.parser.graph.type_display_name(inner_type) {
            Some(t) => {
                proof {
                    reveal_strlit("[");
                    reveal_strlit("]");
                }
                let mut s = String::from_str("[");
                s.append(t.as_str());
                s.append("]");
                Some(s)
            },
            None => None,
        };
        let buf = VariableIR::Array(
            ArrayVariable {
                identity: VariableIdentity::no_namespace(Some(String::from_str("buf"))),
                type_display_name: buf_display,
                items: Some(items),
            },
        );
        let cap_ir = VariableIR::Scalar(
            ScalarVariable {
                identity: VariableIdentity::no_namespace(Some(String::from_str("cap"))),
                type_display_name: Some(String::from_str("usize")),
                value: Some(SupportedScalar::Usize(cap as u64)),
            },
        );
        let mut members: Vec<VariableIR> = Vec::new();
        members.push(buf);
        members.push(cap_ir);
        Some(
            VecVariable {
                structure: StructVariable {
                    identity: ir.identity().duplicate(),
                    type_display_name: crate::ir::dup_opt_string(&structure_ref.type_display_name),
                    members,
                    type_params: crate::ir::dup_type_params(&structure_ref.type_params),
                },
            },
        )
    }

    /// Materializes a double-ended queue: reads the ring buffer at
    /// `pointer` and exposes the elements from `tail` to `head` in queue
    /// order, with the capacity.
    pub fn parse_vec_dequeue<M: MemoryGateway>(
        &self,
        gw: &mut M,
        ctx: &EvaluationContext,
        structure: StructVariable,
        fuel: usize,
    ) -> (r: SpecializedVariableIR)
        requires
            1 <= fuel,
        ensures
            final(gw).mem() == old(gw).mem(),
            forall|a: int, l: int|
                #[trigger] final(gw).readable(a, l) == old(gw).readable(a, l),
            final(gw).reads() >= old(gw).reads(),
            r matches SpecializedVariableIR::VecDeque { vec, original } && original == structure
                && vecdeque_payload_ok(old(gw), self.parser.graph, structure, vec),
        decreases fuel, 2int,
    {
        let ir = VariableIR::Struct(structure);
        let vec = self.parse_vec_dequeue_inner(gw, ctx, &ir, fuel);
        let original = match ir {
            VariableIR::Struct(s) => s,
            _ => vstd::pervasive::unreached(),
        };
        SpecializedVariableIR::VecDeque { vec, original }
    }

    #[verifier::loop_isolation(false)]
    fn parse_vec_dequeue_inner<M: MemoryGateway>(
        &self,
        gw: &mut M,
        ctx: &EvaluationContext,
        ir: &VariableIR,
        fuel: usize,
    ) -> (r: Option<VecVariable>)
        requires
            1 <= fuel,
            *ir matches VariableIR::Struct(_),
        ensures
            final(gw).mem() == old(gw).mem(),
            forall|a: int, l: int|
                #[trigger] final(gw).readable(a, l) == old(gw).readable(a, l),
            final(gw).reads() >= old(gw).reads(),
            (*ir) matches VariableIR::Struct(structure) ==> vecdeque_payload_ok(
                old(gw),
                self.parser.graph,
                structure,
                r,
            ),
        decreases fuel, 1int,
    {
        let structure_ref = match ir {
            VariableIR::Struct(s) => s,
            _ => vstd::pervasive::unreached(),
        };
        let inner_type = match param_lookup(&structure_ref.type_params, "T") {
            Some(Some(t)) => t,
            _ => {
                return None;
            },
        };
        let head = match ir.assume_field_as_scalar_number("head") {
            Ok(n) => n,
            Err(_) => {
                return None;
            },
        };
        let tail = match ir.assume_field_as_scalar_number("tail") {
            Ok(n) => n,
            Err(_) => {
                return None;
            },
        };
        let cap = match ir.assume_field_as_scalar_number("cap") {
            Ok(n) => n,
            Err(_) => {
                return None;
            },
        };
        let data_ptr = match ir.assume_field_as_pointer("pointer") {
            Ok(p) => p,
            Err(_) => {
                return None;
            },
        };
        let el_size = match self.parser.graph.type_size_in_bytes(ctx, inner_type) {
            Some(s) => s,
            None => {
                return None;
            },
        };
        if head < 0 || tail < 0 || cap <= 0 || head >= cap || tail >= cap {
            return None;
        }
        let total = match (cap as u64).checked_mul(el_size) {
            Some(t) => t,
            None => {
                return None;
            },
        };
        let data = match gw.read(ctx.pid, data_ptr, total) {
            Ok(d) => d,
            Err(_) => {
                return None;
            },
        };
        proof {
            assert(data@.len() == vstd::std_specs::vec::spec_vec_len(&data));
        }
        let ghost the_mem = gw.mem();
        let len: u64 = (((head as u64) + (cap as u64)) - (tail as u64)) % (cap as u64);
        let mut items: Vec<VariableIR> = Vec::new();
        let mut j: u64 = 0;
        while j < len
            invariant
                j <= len,
                gw.mem() == the_mem,
                gw.mem() == old(gw).mem(),
                forall|a: int, l: int| #[trigger] gw.readable(a, l) == old(gw).readable(a, l),
                gw.reads() >= old(gw).reads(),
                items@.len() == j,
                forall|k: int|
                    0 <= k < j ==> (#[trigger] items@[k]).spec_name() == Some(dec_int(k)),
                forall|k: int|
                    0 <= k < j ==> element_matches(
                        self.parser.graph,
                        inner_type,
                        mem_slice(
                            the_mem,
                            data_ptr + ((tail + k) % (cap as int)) * el_size,
                            el_size as int,
                        ),
                        #[trigger] items@[k],
                    ),
            decreases len - j,
        {
            let slot: u64 = ((tail as u64) + j) % (cap as u64);
            proof {
                assert(slot < cap as u64);
                assert(slot as int == (tail + j) % (cap as int));
                assert(slot * el_size + el_size <= total) by (nonlinear_arith)
                    requires
                        slot < cap as u64,
                        total == cap * el_size,
                        el_size >= 0,
                        slot >= 0,
                        cap >= 0,
                ;
                assert(0 <= slot * el_size) by (nonlinear_arith)
                    requires
                        slot >= 0,
                        el_size >= 0,
                ;
            }
            let start = (slot * el_size) as usize;
            let end = (slot * el_size + el_size) as usize;
            let chunk = vstd::slice::slice_to_vec(
                vstd::slice::slice_subrange(data.as_slice(), start, end),
            );
            proof {
                assert(chunk@ =~= mem_slice(
                    the_mem,
                    data_ptr + ((tail + j) % (cap as int)) * el_size,
                    el_size as int,
                ));
            }
            let child = self.parser.parse_inner(
                gw,
                ctx,
                VariableIdentity::no_namespace(Some(i64_dec_string(j as i64))),
                Some(chunk),
                inner_type,
                fuel - 1,
            );
            items.push(child);
            j += 1;
        }
        let buf_display = match self.parser.graph.type_display_name(inner_type) {
            Some(t) => {
                proof {
                    reveal_strlit("[");
                    reveal_strlit("]");
                }
                let mut s = String::from_str("[");
                s.append(t.as_str());
                s.append("]");
                Some(s)
            },
            None => None,
        };
        let buf = VariableIR::Array(
            ArrayVariable {
                identity: VariableIdentity::no_namespace(Some(String::from_str("buf"))),
                type_display_name: buf_display,
                items: Some(items),
            },
        );
        let cap_ir = VariableIR::Scalar(
            ScalarVariable {
                identity: VariableIdentity::no_namespace(Some(String::from_str("cap"))),
                type_display_name: Some(String::from_str("usize")),
                value: Some(SupportedScalar::Usize(cap as u64)),
            },
        );
        let mut members: Vec<VariableIR> = Vec::new();
        members.push(buf);
        members.push(cap_ir);
        Some(
            VecVariable {
                structure: StructVariable {
                    identity: ir.identity().duplicate(),
                    type_display_name: crate::ir::dup_opt_string(&structure_ref.type_display_name),
                    members,
                    type_params: crate::ir::dup_type_params(&structure_ref.type_params),
                },
            },
        )
    }

    /// Re-projects a thread-local wrapper.  The wrapped value is the
    /// initialized slot of the thread-local's option, named after the
    /// namespace segment preceding the accessor's namespace.
    pub fn parse_tls(&self, structure: StructVariable) -> (r: SpecializedVariableIR)
        ensures
            r matches SpecializedVariableIR::Tls { tls_var, original } && original == structure
                && tls_payload_ok(self.parser.graph, structure, tls_var),
    {
        let ir = VariableIR::Struct(structure);
        let tls_var = self.parse_tls_inner(&ir);
        let original = match ir {
            VariableIR::Struct(s) => s,
            _ => vstd::pervasive::unreached(),
        };
        SpecializedVariableIR::Tls { tls_var, original }
    }

    fn parse_tls_inner(&self, ir: &VariableIR) -> (r: Option<TlsVariable>)
        requires
            *ir matches VariableIR::Struct(_),
        ensures
            (*ir) matches VariableIR::Struct(structure) ==> tls_payload_ok(
                self.parser.graph,
                structure,
                r,
            ),
    {
        let structure_ref = match ir {
            VariableIR::Struct(s) => s,
            _ => vstd::pervasive::unreached(),
        };
        let t_id = match param_lookup(&structure_ref.type_params, "T") {
            Some(Some(t)) => t,
            _ => {
                return None;
            },
        };
        let ns = &structure_ref.identity.namespace;
        let name: Option<String> = match ns.position_of("__getit") {
            Some(p) => {
                proof {
                    lemma_first_seg_pos(ns_view(ns), "__getit"@, p as int);
                }
                if p > 0 {
                    Some(String::from_str(ns.segments[p - 1].as_str()))
                } else {
                    None
                }
            },
            None => {
                proof {
                    lemma_no_seg_pos(ns_view(ns), "__getit"@);
                }
                None
            },
        };
        let inner = match ir.find_first_named("inner") {
            Some(n) => n,
            None => {
                return None;
            },
        };
        let option_enum = match inner.assume_field_as_rust_enum("value") {
            Ok(e) => e,
            Err(_) => {
                return None;
            },
        };
        let active = match &option_enum.value {
            Some(b) => b,
            None => {
                return None;
            },
        };
        let inner_value: Option<Box<VariableIR>> = match &**active {
            VariableIR::Struct(ov) => {
                let is_none_variant = match &ov.type_display_name {
                    Some(n) => str_eq(n.as_str(), "None"),
                    None => false,
                };
                if is_none_variant {
                    None
                } else {
                    match (&**active).find_first_named("0") {
                        Some(zero) => Some(Box::new(zero.duplicate())),
                        None => {
                            return None;
                        },
                    }
                }
            },
            _ => {
                return None;
            },
        };
        Some(
            TlsVariable {
                identity: VariableIdentity::no_namespace(name),
                inner_value,
                inner_type: self.parser.graph.type_display_name(t_id),
            },
        )
    }

    /// Materializes a hash map from its raw table: control bytes at the
    /// table pointer mark the occupied buckets, whose key-value tuples are
    /// read below the pointer and reified as pairs.
    pub fn parse_hashmap<M: MemoryGateway>(
        &self,
        gw: &mut M,
        ctx: &EvaluationContext,
        structure: StructVariable,
        fuel: usize,
    ) -> (r: SpecializedVariableIR)
        requires
            1 <= fuel,
        ensures
            final(gw).mem() == old(gw).mem(),
            forall|a: int, l: int|
                #[trigger] final(gw).readable(a, l) == old(gw).readable(a, l),
            final(gw).reads() >= old(gw).reads(),
            r matches SpecializedVariableIR::HashMap { map, original } && original == structure
                && hashmap_payload_ok(
                old(gw),
                self.parser.graph,
                fuel as int,
                structure,
                match map {
                    Some(m) => Some(m.kv_items@),
                    None => None,
                },
            ),
        decreases fuel, 2int,
    {
        let ir = VariableIR::Struct(structure);
        let map = self.parse_hashmap_inner(gw, ctx, &ir, fuel);
        let original = match ir {
            VariableIR::Struct(s) => s,
            _ => vstd::pervasive::unreached(),
        };
        SpecializedVariableIR::HashMap { map, original }
    }

    /// The table walk behind hash-map materialization.
    #[verifier::loop_isolation(false)]
    pub fn parse_hashmap_inner<M: MemoryGateway>(
        &self,
        gw: &mut M,
        ctx: &EvaluationContext,
        ir: &VariableIR,
        fuel: usize,
    ) -> (r: Option<HashMapVariable>)
        requires
            1 <= fuel,
            *ir matches VariableIR::Struct(_),
        ensures
            final(gw).mem() == old(gw).mem(),
            forall|a: int, l: int|
                #[trigger] final(gw).readable(a, l) == old(gw).readable(a, l),
            final(gw).reads() >= old(gw).reads(),
            (*ir) matches VariableIR::Struct(structure) ==> hashmap_payload_ok(
                old(gw),
                self.parser.graph,
                fuel as int,
                structure,
                match r {
                    Some(m) => Some(m.kv_items@),
                    None => None,
                },
            ),
        decreases fuel, 1int,
    {
        let kv_items = match self.walk_buckets(gw, ctx, ir, fuel) {
            Some(pairs) => pairs,
            None => {
                return None;
            },
        };
        let structure_ref = match ir {
            VariableIR::Struct(s) => s,
            _ => vstd::pervasive::unreached(),
        };
        Some(
            HashMapVariable {
                identity: ir.identity().duplicate(),
                type_display_name: crate::ir::dup_opt_string(&structure_ref.type_display_name),
                kv_items,
            },
        )
    }

    /// Materializes a hash set: the same table walk as for maps, keeping
    /// the keys only.
    pub fn parse_hashset<M: MemoryGateway>(
        &self,
        gw: &mut M,
        ctx: &EvaluationContext,
        structure: StructVariable,
        fuel: usize,
    ) -> (r: SpecializedVariableIR)
        requires
            1 <= fuel,
        ensures
            final(gw).mem() == old(gw).mem(),
            forall|a: int, l: int|
                #[trigger] final(gw).readable(a, l) == old(gw).readable(a, l),
            final(gw).reads() >= old(gw).reads(),
            r matches SpecializedVariableIR::HashSet { set, original } && original == structure
                && hashset_payload_ok(
                old(gw),
                self.parser.graph,
                fuel as int,
                structure,
                match set {
                    Some(s) => Some(s.items@),
                    None => None,
                },
            ),
        decreases fuel, 2int,
    {
        let ir = VariableIR::Struct(structure);
        let set = self.parse_hashset_inner(gw, ctx, &ir, fuel);
        let original = match ir {
            VariableIR::Struct(s) => s,
            _ => vstd::pervasive::unreached(),
        };
        SpecializedVariableIR::HashSet { set, original }
    }

    /// The table walk behind hash-set materialization.
    pub fn parse_hashset_inner<M: MemoryGateway>(
        &self,
        gw: &mut M,
        ctx: &EvaluationContext,
        ir: &VariableIR,
        fuel: usize,
    ) -> (r: Option<HashSetVariable>)
        requires
            1 <= fuel,
            *ir matches VariableIR::Struct(_),
        ensures
            final(gw).mem() == old(gw).mem(),
            forall|a: int, l: int|
                #[trigger] final(gw).readable(a, l) == old(gw).readable(a, l),
            final(gw).reads() >= old(gw).reads(),
            (*ir) matches VariableIR::Struct(structure) ==> hashset_payload_ok(
                old(gw),
                self.parser.graph,
                fuel as int,
                structure,
                match r {
                    Some(s) => Some(s.items@),
                    None => None,
                },
            ),
        decreases fuel, 1int,
    {
        let pairs = match self.walk_buckets(gw, ctx, ir, fuel) {
            Some(pairs) => pairs,
            None => {
                return None;
            },
        };
        let ghost all_pairs = pairs@;
        let mut items: Vec<VariableIR> = Vec::new();
        let mut rest = pairs;
        while rest.len() > 0
            invariant
                items@.len() + rest@.len() == all_pairs.len(),
                rest@ =~= all_pairs.skip(items@.len() as int),
                forall|k: int| 0 <= k < items@.len() ==> #[trigger] items@[k] == all_pairs[k].0,
            decreases rest@.len(),
        {
            let ghost before = items@.len() as int;
            let pair = rest.remove(0);
            proof {
                assert(pair == all_pairs[before]);
            }
            items.push(pair.0);
            proof {
                assert(rest@ =~= all_pairs.skip(items@.len() as int));
            }
        }
        let structure_ref = match ir {
            VariableIR::Struct(s) => s,
            _ => vstd::pervasive::unreached(),
        };
        Some(
            HashSetVariable {
                identity: ir.identity().duplicate(),
                type_display_name: crate::ir::dup_opt_string(&structure_ref.type_display_name),
                items,
            },
        )
    }

    /// Walks the open-addressing table of a hash map or set: one key-value
    /// pair per occupied bucket, in ascending bucket order.
    #[verifier::loop_isolation(false)]
    fn walk_buckets<M: MemoryGateway>(
        &self,
        gw: &mut M,
        ctx: &EvaluationContext,
        ir: &VariableIR,
        fuel: usize,
    ) -> (r: Option<Vec<(VariableIR, VariableIR)>>)
        requires
            1 <= fuel,
            *ir matches VariableIR::Struct(_),
        ensures
            final(gw).mem() == old(gw).mem(),
            forall|a: int, l: int|
                #[trigger] final(gw).readable(a, l) == old(gw).readable(a, l),
            final(gw).reads() >= old(gw).reads(),
            (*ir) matches VariableIR::Struct(structure) ==> hashmap_payload_ok(
                old(gw),
                self.parser.graph,
                fuel as int,
                structure,
                match r {
                    Some(pairs) => Some(pairs@),
                    None => None,
                },
            ),
        decreases fuel, 0int,
    {
        let ctrl_ptr = match ir.assume_field_as_pointer("pointer") {
            Ok(p) => p,
            Err(_) => {
                return None;
            },
        };
        let mask = match ir.assume_field_as_scalar_number("bucket_mask") {
            Ok(n) => n,
            Err(_) => {
                return None;
            },
        };
        let table = match ir.assume_field_as_struct("table") {
            Ok(t) => t,
            Err(_) => {
                return None;
            },
        };
        let kv_id = match param_lookup(&table.type_params, "T") {
            Some(Some(t)) => t,
            _ => {
                return None;
            },
        };
        let kv_size = match self.parser.graph.type_size_in_bytes(ctx, kv_id) {
            Some(s) => s,
            None => {
                return None;
            },
        };
        if mask < 0 || fuel < 2 {
            return None;
        }
        let pair_shaped = match self.parser.graph.get(kv_id) {
            Some(TypeDeclaration::Structure { name, namespaces, members, .. }) => {
                let plain = match recognize(name, namespaces) {
                    ContainerKind::Plain => true,
                    _ => false,
                };
                plain && count_kept_members(members) == 2
            },
            _ => false,
        };
        if !pair_shaped {
            return None;
        }
        let nbuckets: u64 = (mask as u64) + 1;
        let ctrl = match gw.read(ctx.pid, ctrl_ptr, nbuckets) {
            Ok(c) => c,
            Err(_) => {
                return None;
            },
        };
        proof {
            assert(ctrl@.len() == vstd::std_specs::vec::spec_vec_len(&ctrl));
        }
        let ghost the_mem = gw.mem();
        let mut pairs: Vec<(VariableIR, VariableIR)> = Vec::new();
        let mut i: u64 = 0;
        proof {
            assert(ctrl@.take(0) =~= Seq::<u8>::empty());
        }
        while i < nbuckets
            invariant
                i <= nbuckets,
                gw.mem() == the_mem,
                gw.mem() == old(gw).mem(),
                forall|a: int, l: int| #[trigger] gw.readable(a, l) == old(gw).readable(a, l),
                gw.reads() >= old(gw).reads(),
                pairs@.len() == occupied_slots(ctrl@.take(i as int)).len(),
                forall|k: int|
                    0 <= k < pairs@.len() ==> pair_matches(
                        old(gw),
                        self.parser.graph,
                        kv_id,
                        ctrl_ptr,
                        kv_size,
                        occupied_slots(ctrl@.take(i as int))[k],
                        #[trigger] pairs@[k],
                    ),
            decreases nbuckets - i,
        {
            let ghost slots_before = occupied_slots(ctrl@.take(i as int));
            let b = ctrl[i as usize];
            proof {
                assert(ctrl@.take(i + 1).drop_last() =~= ctrl@.take(i as int));
                assert(ctrl@.take(i + 1).last() == ctrl@[i as int]);
            }
            if b & 0x80 == 0 {
                proof {
                    assert(occupied_slots(ctrl@.take(i + 1)) =~= slots_before.push(i as int));
                }
                let bucket_data: Option<Vec<u8>> = match (i + 1).checked_mul(kv_size) {
                    Some(off) => if off <= ctrl_ptr {
                        match gw.read(ctx.pid, ctrl_ptr - off, kv_size) {
                            Ok(d) => Some(d),
                            Err(_) => None,
                        }
                    } else {
                        None
                    },
                    None => None,
                };
                let ghost bview: Option<Seq<u8>> = match &bucket_data {
                    Some(d) => Some(d@),
                    None => None,
                };
                proof {
                    assert(bview == bucket_bytes(old(gw), ctrl_ptr, i as int, kv_size));
                }
                let child = self.parser.parse_inner(
                    gw,
                    ctx,
                    VariableIdentity::no_namespace(Some(String::from_str("kv"))),
                    bucket_data,
                    kv_id,
                    fuel - 1,
                );
                match child {
                    VariableIR::Struct(tuple) => {
                        let mut members = tuple.members;
                        let v = match members.pop() {
                            Some(x) => x,
                            None => vstd::pervasive::unreached(),
                        };
                        let k = match members.pop() {
                            Some(x) => x,
                            None => vstd::pervasive::unreached(),
                        };
                        proof {
                            assert(pair_matches(
                                old(gw),
                                self.parser.graph,
                                kv_id,
                                ctrl_ptr,
                                kv_size,
                                i as int,
                                (k, v),
                            ));
                        }
                        pairs.push((k, v));
                    },
                    _ => {
                        proof {
                            assert(false);
                        }
                    },
                }
            } else {
                proof {
                    assert(occupied_slots(ctrl@.take(i + 1)) =~= slots_before);
                }
            }
            i += 1;
        }
        proof {
            assert(ctrl@.take(nbuckets as int) =~= ctrl@);
            assert(ctrl@ == mem_slice(the_mem, ctrl_ptr as int, mask + 1));
        }
        Some(pairs)
    }

    /// Unwraps a cell: the payload is a copy of the wrapped value behind
    /// the interior-mutability shell.
    pub fn parse_cell(&self, structure: StructVariable) -> (r: SpecializedVariableIR)
        ensures
            r matches SpecializedVariableIR::Cell { value, original } && original == structure
                && cell_payload_ok(structure, value),
    {
        let payload = self.cell_target(&structure);
        SpecializedVariableIR::Cell { value: payload, original: structure }
    }

    /// Unwraps a ref-cell: the payload is a copy of the wrapped value; the
    /// borrow flag stays visible in the preserved raw structure.
    pub fn parse_refcell(&self, structure: StructVariable) -> (r: SpecializedVariableIR)
        ensures
            r matches SpecializedVariableIR::RefCell { value, original } && original == structure
                && cell_payload_ok(structure, value),
    {
        let payload = self.cell_target(&structure);
        SpecializedVariableIR::RefCell { value: payload, original: structure }
    }

    /// A copy of the wrapped value of an interior-mutability shell.
    fn cell_target(&self, structure: &StructVariable) -> (r: Option<Box<VariableIR>>)
        ensures
            cell_payload_ok(*structure, r),
    {
        match find_member_named(&structure.members, "value") {
            Some(m1) => {
                let target: &VariableIR = match m1 {
                    VariableIR::Struct(s1) => match find_member_named(&s1.members, "value") {
                        Some(m2) => m2,
                        None => m1,
                    },
                    _ => m1,
                };
                Some(Box::new(target.duplicate()))
            },
            None => None,
        }
    }
}

} // verus!
