use vstd::prelude::*;
use crate::shim::str_eq;

verus! {

/// The namespace path a name lives in, outermost segment first.
pub struct NamespaceHierarchy {
    pub segments: Vec<String>,
}

/// The character contents of a namespace path, segment by segment.
pub open spec fn ns_view(ns: &NamespaceHierarchy) -> Seq<Seq<char>> {
    ns.segments@.map_values(|s: String| s@)
}

/// The character contents of an optional name.
pub open spec fn opt_name_view(name: &Option<String>) -> Option<Seq<char>> {
    match name {
        Some(s) => Some(s@),
        None => None,
    }
}

impl NamespaceHierarchy {
    /// The empty namespace path.
    pub fn empty() -> (r: Self)
        ensures
            ns_view(&r) =~= Seq::<Seq<char>>::empty(),
    {
        NamespaceHierarchy { segments: Vec::new() }
    }

    /// Whether `needle` occurs at position `k` of the path.
    pub open spec fn matches_at(&self, needle: Seq<Seq<char>>, k: int) -> bool {
        0 <= k && k + needle.len() <= ns_view(self).len() && (forall|i: int|
            0 <= i < needle.len() ==> ns_view(self)[k + i] == needle[i])
    }

    /// Whether `needle` occurs in the path as a contiguous run of segments.
    pub open spec fn spec_contains(&self, needle: Seq<Seq<char>>) -> bool {
        exists|k: int| self.matches_at(needle, k)
    }

    /// Containment test for a contiguous run of segments.
    pub fn contains(&self, needle: &Vec<&str>) -> (r: bool)
        ensures
            r == self.spec_contains(needle@.map_values(|s: &str| s@)),
    {
        let ghost target = needle@.map_values(|s: &str| s@);
        if needle.len() == 0 {
            assert(self.matches_at(target, 0));
            return true;
        }
        if needle.len() > self.segments.len() {
            return false;
        }
        let limit: usize = self.segments.len() - needle.len();
        let mut k: usize = 0;
        while k <= limit
            invariant
                1 <= needle.len() <= self.segments.len(),
                limit == self.segments.len() - needle.len(),
                k <= limit + 1,
                target == needle@.map_values(|s: &str| s@),
                forall|k0: int| 0 <= k0 < k ==> !self.matches_at(target, k0),
            decreases limit + 1 - k,
        {
            let mut i: usize = 0;
            let mut all_match = true;
            while i < needle.len()
                invariant
                    k + needle.len() <= self.segments.len(),
                    i <= needle.len(),
                    target == needle@.map_values(|s: &str| s@),
                    all_match == (forall|j: int|
                        0 <= j < i ==> ns_view(self)[k + j] == target[j]),
                decreases needle.len() - i,
            {
                if !str_eq(self.segments[k + i].as_str(), needle[i]) {
                    all_match = false;
                    assert(ns_view(self)[k + i] != target[i as int]);
                }
                i += 1;
            }
            if all_match {
                assert(self.matches_at(target, k as int));
                return true;
            }
            k += 1;
        }
        assert forall|k0: int| !self.matches_at(target, k0) by {
            if self.matches_at(target, k0) {
                assert(0 <= k0 < k);
            }
        }
        false
    }

    /// Index of the first segment equal to `name`, if any.
    pub fn position_of(&self, name: &str) -> (r: Option<usize>)
        ensures
            r matches Some(i) ==> i < ns_view(self).len() && ns_view(self)[i as int] == name@
                && (forall|j: int| 0 <= j < i ==> ns_view(self)[j] != name@),
            r is None ==> forall|j: int| 0 <= j < ns_view(self).len() ==> ns_view(self)[j] != name@,
    {
        let mut i: usize = 0;
        while i < self.segments.len()
            invariant
                i <= self.segments.len(),
                forall|j: int| 0 <= j < i ==> ns_view(self)[j] != name@,
            decreases self.segments.len() - i,
        {
            if str_eq(self.segments[i].as_str(), name) {
                return Some(i);
            }
            i += 1;
        }
        None
    }

    /// A copy with the same segments.
    pub fn duplicate(&self) -> (r: Self)
        ensures
            ns_view(&r) == ns_view(self),
    {
        let mut segments: Vec<String> = Vec::new();
        let mut i: usize = 0;
        while i < self.segments.len()
            invariant
                i <= self.segments.len(),
                segments@.len() == i,
                forall|j: int| 0 <= j < i ==> #[trigger] segments@[j]@ == ns_view(self)[j],
            decreases self.segments.len() - i,
        {
            segments.push(String::from_str(self.segments[i].as_str()));
            i += 1;
        }
        let r = NamespaceHierarchy { segments };
        proof {
            assert(ns_view(&r) =~= ns_view(self));
        }
        r
    }
}

/// What a node of the tree is called: its namespace path and optional name.
pub struct VariableIdentity {
    pub namespace: NamespaceHierarchy,
    pub name: Option<String>,
}

impl VariableIdentity {
    pub fn new(namespace: NamespaceHierarchy, name: Option<String>) -> (r: Self)
        ensures
            ns_view(&r.namespace) == ns_view(&namespace),
            r.name == name,
    {
        VariableIdentity { namespace, name }
    }

    /// An identity with an empty namespace path, used for synthetic children
    /// such as array elements and dereference results.
    pub fn no_namespace(name: Option<String>) -> (r: Self)
        ensures
            ns_view(&r.namespace) =~= Seq::<Seq<char>>::empty(),
            r.name == name,
    {
        VariableIdentity { namespace: NamespaceHierarchy::empty(), name }
    }

    /// A copy with the same namespace contents and the same name contents.
    pub fn duplicate(&self) -> (r: Self)
        ensures
            ns_view(&r.namespace) == ns_view(&self.namespace),
            opt_name_view(&r.name) == opt_name_view(&self.name),
    {
        let name = match &self.name {
            Some(n) => Some(String::from_str(n.as_str())),
            None => None,
        };
        VariableIdentity { namespace: self.namespace.duplicate(), name }
    }
}

} // verus!
