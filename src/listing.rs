use vstd::prelude::*;

verus! {

/// The views of a sequence of names.
pub open spec fn name_views(names: Seq<String>) -> Seq<Seq<char>> {
    names.map_values(|n: String| n@)
}

/// The view of an optional string.
pub open spec fn opt_view(o: Option<String>) -> Option<Seq<char>> {
    match o {
        Some(s) => Some(s@),
        None => None,
    }
}

/// The cursor that a marker stands for: an absent or empty marker asks for
/// the first page.
pub open spec fn spec_cursor(marker: Option<Seq<char>>) -> Option<Seq<char>> {
    match marker {
        Some(m) => if m.len() > 0 {
            Some(m)
        } else {
            None
        },
        None => None,
    }
}

/// Reads a marker handed back by a caller: an empty one counts as absent.
pub fn normalize_cursor(marker: Option<String>) -> (r: Option<String>)
    ensures
        opt_view(r) == spec_cursor(opt_view(marker)),
{
    match marker {
        Some(m) => if m.as_str().is_empty() {
            None
        } else {
            Some(m)
        },
        None => None,
    }
}

/// Whether `name` is among `names`: the existence check of a backend that
/// has no cheap probe and must scan its full listing.
pub fn contains_name(names: &Vec<String>, name: &str) -> (r: bool)
    ensures
        r == name_views(names@).contains(name@),
{
    let target = name.to_owned();
    let mut i: usize = 0;
    while i < names.len()
        invariant
            0 <= i <= names@.len(),
            target@ == name@,
            forall|j: int| 0 <= j < i ==> names@[j]@ != name@,
        decreases names@.len() - i,
    {
        if names[i] == target {
            proof {
                assert(name_views(names@)[i as int] == name@);
            }
            return true;
        }
        i = i + 1;
    }
    proof {
        if name_views(names@).contains(name@) {
            let j = choose|j: int| 0 <= j < name_views(names@).len() && name_views(names@)[j] == name@;
            assert(names@[j]@ == name@);
        }
    }
    false
}

} // verus!
