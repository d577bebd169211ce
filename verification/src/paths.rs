//! Where files are looked for, as a base and the names below it.

use vstd::prelude::*;

verus! {

/// Where a path begins.
#[derive(Debug, Clone, PartialEq, Eq)]
pub enum PathBase<P> {
    /// At a path that was given.
    Given(P),
    /// At `.`.
    Here,
    /// At nothing: the path is relative.
    Relative,
}

/// A path: its beginning and the names joined to it.
#[derive(Debug, Clone, PartialEq, Eq)]
pub struct PathPlan<P> {
    pub base: PathBase<P>,
    pub names: Vec<&'static str>,
}

impl<P> PathPlan<P> {
    /// Whether this is `base` with these names joined to it.
    pub open spec fn is(self, base: PathBase<P>, names: Seq<&'static str>) -> bool {
        self.base == base && self.names@ == names
    }
}

/// The path `base` itself.
pub fn path_at<P>(base: PathBase<P>) -> (r: PathPlan<P>)
    ensures
        r.is(base, Seq::empty()),
{
    PathPlan { base, names: Vec::new() }
}

/// The path with one name joined to it.
pub fn path_below<P>(base: PathBase<P>, name: &'static str) -> (r: PathPlan<P>)
    ensures
        r.is(base, seq![name]),
{
    let mut names: Vec<&'static str> = Vec::new();
    names.push(name);
    assert(names@ =~= seq![name]);
    PathPlan { base, names }
}

/// The path with two names joined to it.
pub fn path_two_below<P>(base: PathBase<P>, first: &'static str, second: &'static str) -> (r:
    PathPlan<P>)
    ensures
        r.is(base, seq![first, second]),
{
    let mut names: Vec<&'static str> = Vec::new();
    names.push(first);
    names.push(second);
    assert(names@ =~= seq![first, second]);
    PathPlan { base, names }
}

/// A path that is a base with names is that base with those names.
pub proof fn a_path_is_its_base_and_names<P>(
    plan: PathPlan<P>,
    base: PathBase<P>,
    names: Seq<&'static str>,
)
    ensures
        plan.is(base, names) <==> plan.base == base && plan.names@ == names,
{
}

} // verus!
