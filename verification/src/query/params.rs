//! Query parameters of a request, as name and value pairs.

use vstd::prelude::*;
use crate::text::owned;

verus! {

/// The characters of a list of parameter pairs.
pub open spec fn params_view(p: Seq<(String, String)>) -> Seq<(Seq<char>, Seq<char>)> {
    p.map_values(|kv: (String, String)| (kv.0@, kv.1@))
}

/// One parameter when `present`, none otherwise.
pub open spec fn opt_param(present: bool, name: Seq<char>, value: Seq<char>) -> Seq<(Seq<char>, Seq<char>)> {
    if present {
        seq![(name, value)]
    } else {
        Seq::empty()
    }
}

/// Append the parameter `name=value`.
pub fn push_param(params: &mut Vec<(String, String)>, name: &str, value: String)
    ensures
        params_view(final(params)@) == params_view(old(params)@).push((name@, value@)),
{
    params.push((owned(name), value));
    assert(params_view(params@) =~= params_view(old(params)@).push((name@, value@)));
}

} // verus!
