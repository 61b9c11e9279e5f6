use vstd::prelude::*;
use crate::bfs::deref_seq;
use crate::ir::{spec_children, SpecializedVariableIR, VariableIR};
use crate::scalar::SupportedScalar;
use crate::numfmt::{
    dec_digits, dec_int, hex_digits, i128_dec_string, i64_dec_string, u128_dec_string,
    u64_dec_string, u64_hex_string,
};
use crate::shim::push_char;
use crate::types::opt_view;

verus! {

/// The textual rendering of a decoded scalar: integers in decimal,
/// floating-point values as their hexadecimal bit patterns, booleans and
/// characters literally, the unit value as a pair of parentheses.
pub open spec fn spec_scalar_repr(v: SupportedScalar) -> Seq<char> {
    match v {
        SupportedScalar::I8(n) => dec_int(n as int),
        SupportedScalar::I16(n) => dec_int(n as int),
        SupportedScalar::I32(n) => dec_int(n as int),
        SupportedScalar::I64(n) => dec_int(n as int),
        SupportedScalar::I128(n) => dec_int(n as int),
        SupportedScalar::Isize(n) => dec_int(n as int),
        SupportedScalar::U8(n) => dec_digits(n as int),
        SupportedScalar::U16(n) => dec_digits(n as int),
        SupportedScalar::U32(n) => dec_digits(n as int),
        SupportedScalar::U64(n) => dec_digits(n as int),
        SupportedScalar::U128(n) => dec_digits(n as int),
        SupportedScalar::Usize(n) => dec_digits(n as int),
        SupportedScalar::F32Bits(b) => seq!['0', 'x'] + hex_digits(b as int),
        SupportedScalar::F64Bits(b) => seq!['0', 'x'] + hex_digits(b as int),
        SupportedScalar::Bool(b) => if b {
            "true"@
        } else {
            "false"@
        },
        SupportedScalar::Char(c) => seq![c],
        SupportedScalar::Empty => "()"@,
    }
}

/// Renders a decoded scalar.
pub fn scalar_repr(v: &SupportedScalar) -> (r: String)
    ensures
        r@ == spec_scalar_repr(*v),
{
    match v {
        SupportedScalar::I8(n) => i64_dec_string(*n as i64),
        SupportedScalar::I16(n) => i64_dec_string(*n as i64),
        SupportedScalar::I32(n) => i64_dec_string(*n as i64),
        SupportedScalar::I64(n) => i64_dec_string(*n),
        SupportedScalar::I128(n) => i128_dec_string(*n),
        SupportedScalar::Isize(n) => i64_dec_string(*n),
        SupportedScalar::U8(n) => u64_dec_string(*n as u64),
        SupportedScalar::U16(n) => u64_dec_string(*n as u64),
        SupportedScalar::U32(n) => u64_dec_string(*n as u64),
        SupportedScalar::U64(n) => u64_dec_string(*n),
        SupportedScalar::U128(n) => u128_dec_string(*n),
        SupportedScalar::Usize(n) => u64_dec_string(*n),
        SupportedScalar::F32Bits(b) => u64_hex_string(*b as u64),
        SupportedScalar::F64Bits(b) => u64_hex_string(*b),
        SupportedScalar::Bool(b) => {
            if *b {
                String::from_str("true")
            } else {
                String::from_str("false")
            }
        },
        SupportedScalar::Char(c) => {
            let mut s = String::new();
            push_char(&mut s, *c);
            proof {
                assert(s@ =~= seq![*c]);
            }
            s
        },
        SupportedScalar::Empty => String::from_str("()"),
    }
}

/// The declared display type of a node, read from the field the parser
/// filled; a specialized node answers with its preserved raw structure's.
pub open spec fn spec_display_type(ir: &VariableIR) -> Option<Seq<char>> {
    match ir {
        VariableIR::Scalar(s) => opt_view(&s.type_display_name),
        VariableIR::Struct(s) => opt_view(&s.type_display_name),
        VariableIR::Array(a) => opt_view(&a.type_display_name),
        VariableIR::CEnum(e) => opt_view(&e.type_display_name),
        VariableIR::RustEnum(e) => opt_view(&e.type_display_name),
        VariableIR::Pointer(p) => opt_view(&p.type_display_name),
        VariableIR::Specialized(sp) => opt_view(&sp.spec_original().type_display_name),
    }
}

impl VariableIR {
    /// The display name of this node: its identity's name, or a
    /// placeholder for a synthetic unnamed node.
    pub fn display_name(&self) -> (r: String)
        ensures
            match self.spec_name() {
                Some(n) => r@ == n,
                None => r@ == "unknown"@,
            },
    {
        match &self.identity().name {
            Some(n) => String::from_str(n.as_str()),
            None => String::from_str("unknown"),
        }
    }

    /// The display type of this node, or a placeholder when the type graph
    /// carried no name.
    pub fn display_type(&self) -> (r: String)
        ensures
            match spec_display_type(self) {
                Some(t) => r@ == t,
                None => r@ == "unknown"@,
            },
    {
        let name = match self {
            VariableIR::Scalar(s) => &s.type_display_name,
            VariableIR::Struct(s) => &s.type_display_name,
            VariableIR::Array(a) => &a.type_display_name,
            VariableIR::CEnum(e) => &e.type_display_name,
            VariableIR::RustEnum(e) => &e.type_display_name,
            VariableIR::Pointer(p) => &p.type_display_name,
            VariableIR::Specialized(sp) => &sp.original().type_display_name,
        };
        match name {
            Some(n) => String::from_str(n.as_str()),
            None => String::from_str("unknown"),
        }
    }

    /// The display value of this node.  A scalar renders its decoded
    /// value; composites render a short shape marker; an absent value
    /// renders as a question mark, and the consumer never fails on it.
    pub fn display_value(&self) -> (r: String)
        ensures
            self matches VariableIR::Scalar(s) ==> r@ == (match s.value {
                Some(v) => spec_scalar_repr(v),
                None => "?"@,
            }),
            self matches VariableIR::Pointer(p) ==> r@ == (match p.value {
                Some(a) => seq!['0', 'x'] + hex_digits(a as int),
                None => "?"@,
            }),
        decreases *self,
    {
        match self {
            VariableIR::Scalar(s) => match &s.value {
                Some(v) => scalar_repr(v),
                None => String::from_str("?"),
            },
            VariableIR::Pointer(p) => match p.value {
                Some(a) => u64_hex_string(a),
                None => String::from_str("?"),
            },
            VariableIR::Struct(_) => String::from_str("{..}"),
            VariableIR::Array(_) => String::from_str("[..]"),
            VariableIR::CEnum(e) => match &e.value {
                Some(v) => String::from_str(v.as_str()),
                None => String::from_str("?"),
            },
            VariableIR::RustEnum(e) => match &e.value {
                Some(b) => (&**b).display_value(),
                None => String::from_str("?"),
            },
            VariableIR::Specialized(sp) => match sp {
                SpecializedVariableIR::String { string: Some(sv), .. } => String::from_str(
                    sv.value.as_str(),
                ),
                SpecializedVariableIR::Str { string: Some(sv), .. } => String::from_str(
                    sv.value.as_str(),
                ),
                SpecializedVariableIR::Vector { .. } => String::from_str("[..]"),
                SpecializedVariableIR::VecDeque { .. } => String::from_str("[..]"),
                SpecializedVariableIR::HashMap { .. } => String::from_str("{..}"),
                SpecializedVariableIR::BTreeMap { .. } => String::from_str("{..}"),
                SpecializedVariableIR::HashSet { .. } => String::from_str("{..}"),
                SpecializedVariableIR::BTreeSet { .. } => String::from_str("{..}"),
                SpecializedVariableIR::Tls { tls_var: Some(t), .. } => match &t.inner_value {
                    Some(b) => (&**b).display_value(),
                    None => String::from_str("?"),
                },
                SpecializedVariableIR::Cell { value: Some(b), .. } => (&**b).display_value(),
                SpecializedVariableIR::RefCell { value: Some(b), .. } => (&**b).display_value(),
                _ => String::from_str("?"),
            },
        }
    }

    /// The structural children of this node, for expandable display.
    pub fn children(&self) -> (r: Vec<&VariableIR>)
        ensures
            deref_seq(r@) == spec_children(*self),
    {
        let mut out: Vec<&VariableIR> = Vec::new();
        crate::bfs::push_children(&mut out, self);
        proof {
            assert forall|j: int|
                0 <= j < out@.len() implies deref_seq(out@)[j] == spec_children(*self)[j] by {
                assert(*(out@[0 + j]) == spec_children(*self)[j]);
            }
            assert(deref_seq(out@) =~= spec_children(*self));
        }
        out
    }
}

} // verus!
