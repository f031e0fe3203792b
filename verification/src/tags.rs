//! The tags that group the rules: the `recommended` set is the one enabled by
//! default; the others name the frameworks that a rule is written for.

use vstd::prelude::*;

verus! {

pub const RECOMMENDED: &'static str = "recommended";

pub const REACT: &'static str = "react";

pub const JSX: &'static str = "jsx";

pub const FRESH: &'static str = "fresh";

/// The tags of a list, as text.
pub open spec fn tag_views(v: Seq<&'static str>) -> Seq<Seq<char>> {
    v.map_values(|t: &'static str| t@)
}

/// The tags of a rule of the recommended set.
pub fn recommended() -> (r: Vec<&'static str>)
    ensures
        tag_views(r@) == seq![RECOMMENDED@],
{
    let v = vec![RECOMMENDED];
    assert(tag_views(v@) =~= seq![RECOMMENDED@]);
    v
}

/// The tags of a rule that belongs to no set.
pub fn untagged() -> (r: Vec<&'static str>)
    ensures
        tag_views(r@) == Seq::<Seq<char>>::empty(),
{
    let v: Vec<&'static str> = Vec::new();
    assert(tag_views(v@) =~= Seq::<Seq<char>>::empty());
    v
}

/// The tags of a rule for React and Fresh.
pub fn react_fresh() -> (r: Vec<&'static str>)
    ensures
        tag_views(r@) == seq![REACT@, FRESH@],
{
    let v = vec![REACT, FRESH];
    assert(tag_views(v@) =~= seq![REACT@, FRESH@]);
    v
}

/// The tags of a rule for React, JSX and Fresh.
pub fn react_jsx_fresh() -> (r: Vec<&'static str>)
    ensures
        tag_views(r@) == seq![REACT@, JSX@, FRESH@],
{
    let v = vec![REACT, JSX, FRESH];
    assert(tag_views(v@) =~= seq![REACT@, JSX@, FRESH@]);
    v
}

} // verus!
