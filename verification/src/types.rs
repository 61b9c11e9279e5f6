use vstd::prelude::*;
use vstd::slice::{slice_subrange, slice_to_vec};
use crate::ident::NamespaceHierarchy;

verus! {

/// A stable handle into the type graph: an index into its declaration table.
#[derive(Clone, Copy, PartialEq, Eq, Structural)]
pub struct TypeIdentity(pub usize);

/// The context a reification runs in: which stopped process the value was
/// captured from.
pub struct EvaluationContext {
    pub pid: i32,
}

/// A base-type declaration: its display name, its encoding, its width.
pub struct ScalarType {
    pub name: Option<String>,
    pub encoding: Option<u8>,
    pub byte_size: Option<u64>,
}

/// A member of a structure, union or tagged-enum declaration.  Its location
/// inside the enclosing value is a byte offset, already evaluated from the
/// debug information's location expression.
pub struct StructureMember {
    pub name: Option<String>,
    pub type_ref: Option<TypeIdentity>,
    pub offset: Option<u64>,
}

/// An array declaration: element type and index bounds `[lo, hi)`,
/// already evaluated against the enclosing context.
pub struct ArrayType {
    pub element_type: Option<TypeIdentity>,
    pub bounds: Option<(i64, i64)>,
}

/// One node of the type graph.  Nodes refer to each other only through
/// `TypeIdentity` handles, so the graph may be cyclic.
pub enum TypeDeclaration {
    Scalar(ScalarType),
    Structure {
        name: Option<String>,
        namespaces: NamespaceHierarchy,
        byte_size: Option<u64>,
        members: Vec<StructureMember>,
        type_params: Vec<(String, Option<TypeIdentity>)>,
    },
    Array(ArrayType),
    CStyleEnum {
        name: Option<String>,
        byte_size: Option<u64>,
        discr_type: Option<TypeIdentity>,
        enumerators: Vec<(i64, String)>,
    },
    RustEnum {
        name: Option<String>,
        byte_size: Option<u64>,
        discr_type: Option<Box<StructureMember>>,
        enumerators: Vec<(Option<i64>, StructureMember)>,
    },
    Pointer {
        name: Option<String>,
        target_type: Option<TypeIdentity>,
    },
    Union {
        name: Option<String>,
        byte_size: Option<u64>,
        members: Vec<StructureMember>,
    },
}

impl TypeDeclaration {
    /// The declared name of this node, if the debug information carries one.
    pub open spec fn spec_name(&self) -> Option<Seq<char>> {
        match self {
            TypeDeclaration::Scalar(s) => opt_view(&s.name),
            TypeDeclaration::Structure { name, .. } => opt_view(name),
            TypeDeclaration::Array(_) => None,
            TypeDeclaration::CStyleEnum { name, .. } => opt_view(name),
            TypeDeclaration::RustEnum { name, .. } => opt_view(name),
            TypeDeclaration::Pointer { name, .. } => opt_view(name),
            TypeDeclaration::Union { name, .. } => opt_view(name),
        }
    }
}

/// The character contents of an optional string.
pub open spec fn opt_view(o: &Option<String>) -> Option<Seq<char>> {
    match o {
        Some(s) => Some(s@),
        None => None,
    }
}

/// A type graph: a declaration table and the handle of the root type the
/// reification starts from.
pub struct ComplexType {
    pub types: Vec<TypeDeclaration>,
    pub root: TypeIdentity,
}

/// How many fuel steps suffice for any size computation over a well-formed
/// graph: a chain of by-value nestings never revisits a declaration.
pub open spec fn spec_size_fuel(t: &ComplexType) -> nat {
    if t.types@.len() < usize::MAX {
        (t.types@.len() + 1) as nat
    } else {
        usize::MAX as nat
    }
}

/// The size in bytes of the type `id` refers to, computed with bounded
/// recursion depth.  Scalars, structures, unions and enums carry their size;
/// pointers have the target's word width; an array multiplies its bound
/// count by its element size.
pub open spec fn spec_size_in_bytes(t: &ComplexType, id: TypeIdentity, fuel: nat) -> Option<u64>
    decreases fuel, 0int,
{
    if fuel == 0 || id.0 >= t.types@.len() {
        None
    } else {
        match t.types@[id.0 as int] {
            TypeDeclaration::Scalar(s) => s.byte_size,
            TypeDeclaration::Structure { byte_size, .. } => byte_size,
            TypeDeclaration::CStyleEnum { byte_size, .. } => byte_size,
            TypeDeclaration::RustEnum { byte_size, .. } => byte_size,
            TypeDeclaration::Union { byte_size, .. } => byte_size,
            TypeDeclaration::Pointer { .. } => Some(8u64),
            TypeDeclaration::Array(a) => spec_array_size(t, a, (fuel - 1) as nat),
        }
    }
}

/// The size of an array type: its element count times its element size,
/// absent when the bounds are missing or inverted, the element type is
/// missing, or the product leaves `u64`.
pub open spec fn spec_array_size(t: &ComplexType, a: ArrayType, fuel: nat) -> Option<u64>
    decreases fuel, 1int,
{
    match a.bounds {
        None => None,
        Some((lo, hi)) => if lo > hi {
            None
        } else {
            match a.element_type {
                None => None,
                Some(el) => match spec_size_in_bytes(t, el, fuel) {
                    None => None,
                    Some(el_size) => if (hi - lo) * el_size <= u64::MAX {
                        Some(((hi - lo) * el_size) as u64)
                    } else {
                        None
                    },
                },
            }
        },
    }
}

/// The bytes of a member inside its parent's buffer: the subrange at the
/// member's offset, of the member's type's size; absent when the parent
/// buffer, the offset, the member type or its size is missing, or the
/// subrange does not fit in the buffer.
pub open spec fn spec_member_bytes(
    t: &ComplexType,
    member: &StructureMember,
    parent: Option<Seq<u8>>,
) -> Option<Seq<u8>> {
    match parent {
        None => None,
        Some(p) => match member.offset {
            None => None,
            Some(off) => match member.type_ref {
                None => None,
                Some(tr) => match spec_size_in_bytes(t, tr, spec_size_fuel(t)) {
                    None => None,
                    Some(size) => if off + size <= p.len() {
                        Some(p.subrange(off as int, off + size))
                    } else {
                        None
                    },
                },
            },
        },
    }
}

impl ComplexType {
    pub fn new(types: Vec<TypeDeclaration>, root: TypeIdentity) -> (r: Self)
        ensures
            r.types == types,
            r.root == root,
    {
        ComplexType { types, root }
    }

    /// The declaration a handle refers to, when the handle is in range.
    pub fn get(&self, id: TypeIdentity) -> (r: Option<&TypeDeclaration>)
        ensures
            id.0 < self.types@.len() ==> r == Some(&self.types@[id.0 as int]),
            id.0 >= self.types@.len() ==> r is None,
    {
        if id.0 < self.types.len() {
            Some(&self.types[id.0])
        } else {
            None
        }
    }

    /// The canonical display name of the type `id` refers to.
    pub open spec fn spec_type_name(&self, id: TypeIdentity) -> Option<Seq<char>> {
        if id.0 < self.types@.len() {
            self.types@[id.0 as int].spec_name()
        } else {
            None
        }
    }

    /// A copy of the declared name of the type `id` refers to.
    pub fn type_display_name(&self, id: TypeIdentity) -> (r: Option<String>)
        ensures
            opt_view(&r) == self.spec_type_name(id),
    {
        match self.get(id) {
            None => None,
            Some(decl) => {
                let name = match decl {
                    TypeDeclaration::Scalar(s) => &s.name,
                    TypeDeclaration::Structure { name, .. } => name,
                    TypeDeclaration::Array(_) => &None,
                    TypeDeclaration::CStyleEnum { name, .. } => name,
                    TypeDeclaration::RustEnum { name, .. } => name,
                    TypeDeclaration::Pointer { name, .. } => name,
                    TypeDeclaration::Union { name, .. } => name,
                };
                match name {
                    Some(n) => Some(String::from_str(n.as_str())),
                    None => None,
                }
            },
        }
    }

    /// The size in bytes of the type `id` refers to, if the graph can
    /// compute it.
    pub fn type_size_in_bytes(&self, _ctx: &EvaluationContext, id: TypeIdentity) -> (r: Option<
        u64,
    >)
        ensures
            r == spec_size_in_bytes(self, id, spec_size_fuel(self)),
    {
        let fuel: usize = if self.types.len() < usize::MAX {
            self.types.len() + 1
        } else {
            usize::MAX
        };
        self.size_with_fuel(id, fuel)
    }

    /// Bounded-depth size computation; the public entry supplies enough fuel
    /// for any well-formed graph.
    fn size_with_fuel(&self, id: TypeIdentity, fuel: usize) -> (r: Option<u64>)
        ensures
            r == spec_size_in_bytes(self, id, fuel as nat),
        decreases fuel,
    {
        if fuel == 0 {
            return None;
        }
        let decl = match self.get(id) {
            Some(d) => d,
            None => {
                return None;
            },
        };
        match decl {
            TypeDeclaration::Scalar(s) => s.byte_size,
            TypeDeclaration::Structure { byte_size, .. } => *byte_size,
            TypeDeclaration::CStyleEnum { byte_size, .. } => *byte_size,
            TypeDeclaration::RustEnum { byte_size, .. } => *byte_size,
            TypeDeclaration::Union { byte_size, .. } => *byte_size,
            TypeDeclaration::Pointer { .. } => Some(8u64),
            TypeDeclaration::Array(a) => {
                let (lo, hi) = match a.bounds {
                    Some(b) => b,
                    None => {
                        return None;
                    },
                };
                if lo > hi {
                    return None;
                }
                let el = match a.element_type {
                    Some(el) => el,
                    None => {
                        return None;
                    },
                };
                let el_size = match self.size_with_fuel(el, fuel - 1) {
                    Some(s) => s,
                    None => {
                        return None;
                    },
                };
                let count = ((hi as i128) - (lo as i128)) as u64;
                match count.checked_mul(el_size) {
                    Some(total) => Some(total),
                    None => None,
                }
            },
        }
    }

    /// The bytes of a member inside its parent's buffer, copied out.
    pub fn member_bytes(
        &self,
        ctx: &EvaluationContext,
        member: &StructureMember,
        parent: Option<&Vec<u8>>,
    ) -> (r: Option<Vec<u8>>)
        ensures
            opt_bytes_view(&r) == spec_member_bytes(
                self,
                member,
                match parent {
                    Some(p) => Some(p@),
                    None => None,
                },
            ),
    {
        let p = match parent {
            Some(p) => p,
            None => {
                return None;
            },
        };
        let off = match member.offset {
            Some(o) => o,
            None => {
                return None;
            },
        };
        let tr = match member.type_ref {
            Some(t) => t,
            None => {
                return None;
            },
        };
        let size = match self.type_size_in_bytes(ctx, tr) {
            Some(s) => s,
            None => {
                return None;
            },
        };
        let plen: usize = p.len();
        let end64: u64 = match off.checked_add(size) {
            Some(e) => e,
            None => {
                assert(off + size > p@.len());
                return None;
            },
        };
        if end64 <= plen as u64 {
            let start = off as usize;
            let end = end64 as usize;
            let sub = slice_subrange(p.as_slice(), start, end);
            let out = slice_to_vec(sub);
            assert(out@ == p@.subrange(off as int, off + size));
            Some(out)
        } else {
            assert(off + size > p@.len());
            None
        }
    }
}

/// The byte contents of an optional buffer.
pub open spec fn opt_bytes_view(o: &Option<Vec<u8>>) -> Option<Seq<u8>> {
    match o {
        Some(v) => Some(v@),
        None => None,
    }
}

} // verus!
