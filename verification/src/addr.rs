use vstd::prelude::*;

verus! {

/// An identity: an address that the environment has already validated.
///
/// The library never looks inside one; it only compares them.
#[derive(Debug, PartialEq, Eq)]
pub struct Addr(pub String);

impl View for Addr {
    type V = Seq<char>;

    open spec fn view(&self) -> Seq<char> {
        self.0@
    }
}

impl Clone for Addr {
    fn clone(&self) -> (r: Self)
        ensures
            r@ == self@,
    {
        Addr(self.0.clone())
    }
}

impl Addr {
    /// Wraps a string without checking it.
    pub fn unchecked(input: &str) -> (r: Addr)
        ensures
            r@ == input@,
    {
        Addr(input.to_owned())
    }

    pub fn as_str(&self) -> (r: &str)
        ensures
            r@ == self@,
    {
        self.0.as_str()
    }

    /// Whether the two addresses are the same identity.
    pub fn same(&self, other: &Addr) -> (r: bool)
        ensures
            r == (self@ == other@),
    {
        self.0 == other.0
    }
}

/// The view of an optional identity.
pub open spec fn opt_addr_view(a: Option<Addr>) -> Option<Seq<char>> {
    match a {
        Some(x) => Some(x@),
        None => None,
    }
}

/// Copies an optional identity.
pub fn clone_opt_addr(a: &Option<Addr>) -> (r: Option<Addr>)
    ensures
        opt_addr_view(r) == opt_addr_view(*a),
{
    match a {
        Some(x) => Some(x.clone()),
        None => None,
    }
}

/// Whether two optional identities are both absent or the same identity.
pub fn same_opt_addr(a: &Option<Addr>, b: &Option<Addr>) -> (r: bool)
    ensures
        r == (opt_addr_view(*a) == opt_addr_view(*b)),
{
    match (a, b) {
        (Some(x), Some(y)) => x.same(y),
        (None, None) => true,
        _ => false,
    }
}

} // verus!
