//! The literal front of a glob pattern.

use crate::path::HostPath;
use crate::text::chars_of;
use vstd::prelude::*;

verus! {

/// Whether a character belongs to the pattern syntax.
pub open spec fn is_glob_char(c: char) -> bool {
    c == '*' || c == '?' || c == '{' || c == '}'
}

/// Whether a component holds no pattern syntax.
pub open spec fn is_literal(component: Seq<char>) -> bool {
    forall|i: int| 0 <= i < component.len() ==> !is_glob_char(#[trigger] component[i])
}

/// How many components stand in front of the first one with pattern syntax.
pub open spec fn literal_count(parts: Seq<Seq<char>>) -> nat
    decreases parts.len(),
{
    if parts.len() == 0 || !is_literal(parts[0]) {
        0
    } else {
        1 + literal_count(parts.skip(1))
    }
}

fn holds_no_glob_char(component: &String) -> (result: bool)
    ensures
        result == is_literal(component@),
{
    let chars = chars_of(component.as_str());
    let mut i: usize = 0;
    while i < chars.len()
        invariant
            i <= chars.len(),
            chars@ == component@,
            forall|k: int| 0 <= k < i ==> !is_glob_char(#[trigger] component@[k]),
        decreases chars.len() - i,
    {
        let c = chars[i];
        if c == '*' || c == '?' || c == '{' || c == '}' {
            assert(is_glob_char(component@[i as int]));
            return false;
        }
        i += 1;
    }
    true
}

/// The leading components of a glob pattern that hold no pattern syntax.
pub fn glob_literal_prefix(glob: &HostPath) -> (prefix: HostPath)
    ensures
        prefix@ == crate::path::with_components(
            glob@,
            crate::path::components(glob@).take(
                literal_count(crate::path::components(glob@)) as int,
            ),
        ),
{
    let parts = glob.component_texts();
    let ghost all = crate::path::components(glob@);
    let mut kept: Vec<String> = Vec::new();
    let mut i: usize = 0;
    assert(all.skip(0) =~= all);
    while i < parts.len() && holds_no_glob_char(&parts[i])
        invariant
            i <= parts.len(),
            crate::text::texts(parts@) == all,
            kept@.len() == i,
            forall|k: int| 0 <= k < i ==> (#[trigger] kept@[k])@ == all[k],
            literal_count(all) == i + literal_count(all.skip(i as int)),
        ensures
            crate::text::texts(parts@) == all,
            kept@.len() == literal_count(all) <= all.len(),
            forall|k: int| 0 <= k < kept@.len() ==> (#[trigger] kept@[k])@ == all[k],
        decreases parts.len() - i,
    {
        assert(all[i as int] == parts@[i as int]@);
        assert(all.skip(i as int)[0] == all[i as int]);
        assert(all.skip(i as int).skip(1) =~= all.skip(i + 1));
        kept.push(parts[i].clone());
        i += 1;
    }
    assert(crate::text::texts(kept@) =~= all.take(literal_count(all) as int));
    glob.with_parts(&kept)
}

} // verus!
