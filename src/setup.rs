//! Optional parts of an unpacked driver package that can be removed before
//! installing.
use crate::text::{lemma_strings_view_push, strings_view};
use vstd::prelude::*;

verus! {

/// A removable part of a driver package: the paths it occupies in the
/// unpacked package, and whether the user wants it gone (`None`: not asked).
#[derive(Clone, Debug)]
pub struct Component {
    pub name: String,
    pub paths: Vec<String>,
    pub remove: Option<bool>,
}

/// The paths of the components before the first one the user chose to keep,
/// in order; the rest of the list is left alone.
pub open spec fn spec_strip_paths(components: Seq<Component>) -> Seq<Seq<char>>
    decreases components.len(),
{
    if components.len() == 0 || components[0].remove == Some(false) {
        Seq::empty()
    } else {
        strings_view(components[0].paths@) + spec_strip_paths(components.drop_first())
    }
}

/// The paths to delete when stripping `components`: those of every component
/// up to, not including, the first one marked to be kept.
pub fn paths_to_strip(components: &Vec<Component>) -> (r: Vec<String>)
    ensures
        strings_view(r@) == spec_strip_paths(components@),
{
    let mut out: Vec<String> = Vec::new();
    let mut i: usize = 0;
    assert(components@.subrange(0, components@.len() as int) =~= components@);
    assert(strings_view(out@) + spec_strip_paths(components@) =~= spec_strip_paths(components@));
    while i < components.len()
        invariant
            i <= components@.len(),
            strings_view(out@) + spec_strip_paths(components@.subrange(
                i as int,
                components@.len() as int,
            )) == spec_strip_paths(components@),
        decreases components@.len() - i,
    {
        let c = &components[i];
        let ghost rest = components@.subrange(i as int, components@.len() as int);
        assert(rest.drop_first() =~= components@.subrange(i + 1, components@.len() as int));
        if c.remove == Some(false) {
            assert(strings_view(out@) =~= strings_view(out@)
                + spec_strip_paths(rest));
            return out;
        }
        let mut j: usize = 0;
        let ghost start = out@;
        while j < c.paths.len()
            invariant
                j <= c.paths@.len(),
                strings_view(out@) == strings_view(start)
                    + strings_view(c.paths@.subrange(0, j as int)),
            decreases c.paths@.len() - j,
        {
            let ghost before = out@;
            let p = c.paths[j].clone();
            out.push(p);
            proof {
                lemma_strings_view_push(before, p);
                lemma_strings_view_push(c.paths@.subrange(0, j as int), c.paths@[j as int]);
                assert(c.paths@.subrange(0, j + 1) =~= c.paths@.subrange(0, j as int).push(
                    c.paths@[j as int],
                ));
            }
            assert(strings_view(out@) =~= strings_view(start)
                + strings_view(c.paths@.subrange(0, j + 1))) by {
                assert(strings_view(before) =~= strings_view(start)
                    + strings_view(c.paths@.subrange(0, j as int)));
            }
            j = j + 1;
        }
        assert(c.paths@.subrange(0, j as int) =~= c.paths@);
        assert(strings_view(out@) + spec_strip_paths(
            components@.subrange(i + 1, components@.len() as int),
        ) =~= strings_view(start) + spec_strip_paths(rest));
        i = i + 1;
    }
    assert(strings_view(out@) =~= strings_view(out@) + spec_strip_paths(
        components@.subrange(i as int, components@.len() as int),
    ));
    out
}

} // verus!
