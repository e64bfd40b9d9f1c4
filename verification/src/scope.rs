//! Variable resolution: the three storage classes of a name and the access
//! path of each.
use vstd::prelude::*;
use vstd::string::StringExecFns;

verus! {

/// True if the two strings hold the same characters.
pub fn str_eq(a: &str, b: &str) -> (same: bool)
    ensures
        same == (a@ == b@),
{
    let x = a.as_bytes();
    let y = b.as_bytes();
    if x.len() != y.len() {
        return false;
    }
    let mut i: usize = 0;
    while i < x.len()
        invariant
            i <= x.len(),
            x.len() == y.len(),
            x@ == vstd::utf8::encode_utf8(a@),
            y@ == vstd::utf8::encode_utf8(b@),
            forall|k: int| 0 <= k < i ==> x@[k] == y@[k],
        decreases x.len() - i,
    {
        if x[i] != y[i] {
            return false;
        }
        i += 1;
    }
    proof {
        assert(x@ =~= y@);
        vstd::utf8::encode_utf8_decode_utf8(a@);
        vstd::utf8::encode_utf8_decode_utf8(b@);
    }
    true
}

/// True if `name` is one of the pseudo-variables of the debug session.
pub open spec fn is_debug_access_variable(name: Seq<char>) -> bool {
    ||| name == "__protocol"@
    ||| name == "__connection"@
    ||| name == "__dp"@
    ||| name == "__ap"@
    ||| name == "__apid"@
    ||| name == "__traceout"@
    ||| name == "__errorcontrol"@
    ||| name == "__FlashOp"@
    ||| name == "__FlashAddr"@
    ||| name == "__FlashLen"@
    ||| name == "__FlashArg"@
}

/// Tells whether `name` is one of the pseudo-variables of the debug session.
pub fn debug_access_variable(name: &str) -> (reserved: bool)
    ensures
        reserved == is_debug_access_variable(name@),
{
    str_eq(name, "__protocol") || str_eq(name, "__connection") || str_eq(name, "__dp") || str_eq(
        name,
        "__ap",
    ) || str_eq(name, "__apid") || str_eq(name, "__traceout") || str_eq(name, "__errorcontrol")
        || str_eq(name, "__FlashOp") || str_eq(name, "__FlashAddr") || str_eq(name, "__FlashLen")
        || str_eq(name, "__FlashArg")
}

/// The names that are local at one point of a callable unit.
pub struct Locals {
    names: Vec<String>,
}

impl View for Locals {
    type V = Set<Seq<char>>;

    closed spec fn view(&self) -> Set<Seq<char>> {
        Set::new(|name: Seq<char>| exists|i: int| 0 <= i < self.names.len() && self.names[i]@ == name)
    }
}

impl Locals {
    /// No local name.
    pub fn new() -> (locals: Locals)
        ensures
            locals@ == Set::<Seq<char>>::empty(),
    {
        let locals = Locals { names: Vec::new() };
        proof {
            assert(locals@ =~= Set::<Seq<char>>::empty());
        }
        locals
    }

    /// Tells whether `name` is local.
    pub fn contains(&self, name: &str) -> (found: bool)
        ensures
            found == self@.contains(name@),
    {
        let mut i: usize = 0;
        while i < self.names.len()
            invariant
                i <= self.names.len(),
                forall|k: int| 0 <= k < i ==> self.names[k]@ != name@,
            decreases self.names.len() - i,
        {
            if str_eq(self.names[i].as_str(), name) {
                return true;
            }
            i += 1;
        }
        false
    }

    /// Makes `name` local. A name that is local already stays so.
    pub fn insert(&mut self, name: &str)
        ensures
            final(self)@ == old(self)@.insert(name@),
    {
        if !self.contains(name) {
            self.names.push(String::from_str(name));
            proof {
                let before = old(self).names;
                let after = self.names;
                assert forall|n: Seq<char>| self@.contains(n) == old(self)@.insert(
                    name@,
                ).contains(n) by {
                    if old(self)@.contains(n) {
                        let i = choose|i: int| 0 <= i < before.len() && before[i]@ == n;
                        assert(after[i]@ == n);
                    }
                    if n == name@ {
                        assert(after[before.len() as int]@ == n);
                    }
                }
                assert(self@ =~= old(self)@.insert(name@));
            }
        } else {
            proof {
                assert(self@ =~= old(self)@.insert(name@));
            }
        }
    }
}

impl Clone for Locals {
    /// A copy into which names can be inserted without touching the original.
    fn clone(&self) -> (copy: Locals)
        ensures
            copy@ == self@,
    {
        let mut names: Vec<String> = Vec::new();
        let mut i: usize = 0;
        while i < self.names.len()
            invariant
                i <= self.names.len(),
                names.len() == i,
                forall|k: int| 0 <= k < i ==> names[k]@ == self.names[k]@,
            decreases self.names.len() - i,
        {
            names.push(self.names[i].clone());
            i += 1;
        }
        let copy = Locals { names };
        proof {
            assert forall|n: Seq<char>| copy@.contains(n) == self@.contains(n) by {
                if copy@.contains(n) {
                    let i = choose|i: int| 0 <= i < copy.names.len() && copy.names[i]@ == n;
                    assert(self.names[i]@ == n);
                }
                if self@.contains(n) {
                    let i = choose|i: int| 0 <= i < self.names.len() && self.names[i]@ == n;
                    assert(copy.names[i]@ == n);
                }
            }
            assert(copy@ =~= self@);
        }
        copy
    }
}

/// The access path of `name` where `locals` are the local names: a field of
/// the session for a pseudo-variable, a local binding for a local name, and
/// for any other name an entry of the session's map of persistent variables.
pub open spec fn var_path_text(name: Seq<char>, locals: Set<Seq<char>>) -> Seq<char> {
    if is_debug_access_variable(name) {
        "ctx.cmsis"@ + name
    } else if locals.contains(name) {
        "l_"@ + name
    } else {
        "ctx.vars[\""@ + name + "\"]"@
    }
}

/// Renders the access path of `name`.
pub fn var_path(name: &str, locals: &Locals) -> (path: String)
    ensures
        path@ == var_path_text(name@, locals@),
{
    if debug_access_variable(name) {
        String::from_str("ctx.cmsis").concat(name)
    } else if locals.contains(name) {
        String::from_str("l_").concat(name)
    } else {
        String::from_str("ctx.vars[\"").concat(name).concat("\"]")
    }
}

} // verus!
