//! Finding the programs and files that the coach relies on.
//!
//! The file system is looked at elsewhere; here it is decided what to take. A
//! path is carried as it is, next to the text that shows it.

use vstd::prelude::*;

verus! {

/// A place in the file system.
#[derive(Debug)]
pub struct Place<P> {
    pub path: P,
    /// The path as it is shown.
    pub shown: String,
    /// Whether there is something at that place.
    pub is_there: bool,
}

/// The first item of a list that is there.
pub open spec fn first_some<T>(list: Seq<Option<T>>) -> Option<T>
    decreases list.len(),
{
    if list.len() == 0 {
        None
    } else if list[0] is Some {
        list[0]
    } else {
        first_some(list.drop_first())
    }
}

/// Takes the first item of a list that is there.
pub fn take_first<T>(list: Vec<Option<T>>) -> (r: Option<T>)
    ensures
        r == first_some(list@),
{
    let ghost all = list@;
    let mut items = list;
    let mut i: usize = 0;
    assert(all.skip(0) == all);
    while i < items.len()
        invariant
            items@ == all,
            list@ == all,
            i <= all.len(),
            first_some(all) == first_some(all.skip(i as int)),
        decreases all.len() - i,
    {
        if items[i].is_some() {
            assert(all.skip(i as int)[0] == all[i as int]);
            return items.swap_remove(i);
        }
        assert(all.skip(i as int).drop_first() == all.skip(i + 1));
        i += 1;
    }
    None
}

/// The first of some places at which there is something.
pub open spec fn first_there<P>(places: Seq<Place<P>>) -> Option<Place<P>>
    decreases places.len(),
{
    if places.len() == 0 {
        None
    } else if places[0].is_there {
        Some(places[0])
    } else {
        first_there(places.drop_first())
    }
}

/// Searches places in their order and takes the first at which there is something.
pub fn which_on_path<P>(places: Vec<Place<P>>) -> (r: Option<Place<P>>)
    ensures
        r == first_there(places@),
{
    let ghost all = places@;
    let mut items = places;
    let mut i: usize = 0;
    assert(all.skip(0) == all);
    while i < items.len()
        invariant
            items@ == all,
            places@ == all,
            i <= all.len(),
            first_there(all) == first_there(all.skip(i as int)),
        decreases all.len() - i,
    {
        if items[i].is_there {
            assert(all.skip(i as int)[0] == all[i as int]);
            return Some(items.swap_remove(i));
        }
        assert(all.skip(i as int).drop_first() == all.skip(i + 1));
        i += 1;
    }
    None
}

/// Whether a search for a program came out right: a program that was named is
/// taken where it exists, and no other is looked for; otherwise the first
/// that was found is.
pub open spec fn is_resolved<P>(
    r: Result<Place<P>, String>,
    named: Option<Place<P>>,
    found: Seq<Option<Place<P>>>,
    variable: Seq<char>,
    not_found: Seq<char>,
) -> bool {
    match named {
        Some(place) => if place.is_there {
            r == Ok::<Place<P>, String>(place)
        } else {
            r matches Err(e) && e@ == variable + " points to "@ + place.shown@
                + " which doesn't exist"@
        },
        None => match first_some(found) {
            Some(place) => r == Ok::<Place<P>, String>(place),
            None => r matches Err(e) && e@ == not_found,
        },
    }
}

/// Decides which program to use: the one that a variable names, or else the first
/// that was found.
pub fn resolve_program<P>(
    named: Option<Place<P>>,
    found: Vec<Option<Place<P>>>,
    variable: &str,
    not_found: &str,
) -> (r: Result<Place<P>, String>)
    ensures
        is_resolved(r, named, found@, variable@, not_found@),
{
    match named {
        Some(place) => {
            if place.is_there {
                Ok(place)
            } else {
                let mut e = String::from_str(variable);
                e.append(" points to ");
                e.append(place.shown.as_str());
                e.append(" which doesn't exist");
                Err(e)
            }
        },
        None => match take_first(found) {
            Some(place) => Ok(place),
            None => Err(String::from_str(not_found)),
        },
    }
}

/// What is said where the platform has no place for settings.
pub const NO_CONFIG_DIR: &'static str = "no config dir";

/// Decides where a model is: where a variable says, or else at the usual place.
pub fn resolve_model_place<P>(named: Option<P>, usual: Option<P>) -> (r: Result<P, String>)
    ensures
        match named {
            Some(path) => r == Ok::<P, String>(path),
            None => match usual {
                Some(path) => r == Ok::<P, String>(path),
                None => r matches Err(e) && e@ == NO_CONFIG_DIR@,
            },
        },
{
    match named {
        Some(path) => Ok(path),
        None => match usual {
            Some(path) => Ok(path),
            None => Err(String::from_str(NO_CONFIG_DIR)),
        },
    }
}

/// What is taken is the first item that is there: nothing before it is. Nothing is taken
/// just where nothing is there.
pub proof fn law_first_is_taken<T>(list: Seq<Option<T>>)
    ensures
        first_some(list) is None <==> forall|i: int|
            0 <= i < list.len() ==> (#[trigger] list[i]) is None,
        first_some(list) is Some ==> exists|i: int|
            0 <= i < list.len() && #[trigger] list[i] == first_some(list) && forall|k: int|
                0 <= k < i ==> (#[trigger] list[k]) is None,
    decreases list.len(),
{
    if list.len() > 0 {
        let rest = list.drop_first();
        if list[0] is None {
            law_first_is_taken(rest);
            if first_some(rest) is Some {
                let i = choose|i: int|
                    0 <= i < rest.len() && #[trigger] rest[i] == first_some(rest) && forall|k: int|
                        0 <= k < i ==> (#[trigger] rest[k]) is None;
                assert(list[i + 1] == first_some(list));
                assert forall|k: int| 0 <= k < i + 1 implies (#[trigger] list[k]) is None by {
                    if k > 0 {
                        assert(list[k] == rest[k - 1]);
                    }
                }
            } else {
                assert forall|i: int| 0 <= i < list.len() implies (#[trigger] list[i]) is None by {
                    if i > 0 {
                        assert(list[i] == rest[i - 1]);
                    }
                }
            }
        } else {
            assert(list[0] == first_some(list));
        }
    }
}

/// The place that is taken is the first at which there is something. None is taken just
/// where there is nothing at any.
pub proof fn law_first_place_is_taken<P>(places: Seq<Place<P>>)
    ensures
        first_there(places) is None <==> forall|i: int|
            0 <= i < places.len() ==> !(#[trigger] places[i]).is_there,
        first_there(places) is Some ==> exists|i: int|
            0 <= i < places.len() && first_there(places) == Some(#[trigger] places[i])
                && places[i].is_there && forall|k: int|
                0 <= k < i ==> !(#[trigger] places[k]).is_there,
    decreases places.len(),
{
    if places.len() > 0 {
        let rest = places.drop_first();
        if !places[0].is_there {
            law_first_place_is_taken(rest);
            if first_there(rest) is Some {
                let i = choose|i: int|
                    0 <= i < rest.len() && first_there(rest) == Some(#[trigger] rest[i])
                        && rest[i].is_there && forall|k: int|
                        0 <= k < i ==> !(#[trigger] rest[k]).is_there;
                assert(places[i + 1] == rest[i]);
                assert forall|k: int| 0 <= k < i + 1 implies !(#[trigger] places[k]).is_there by {
                    if k > 0 {
                        assert(places[k] == rest[k - 1]);
                    }
                }
            } else {
                assert forall|i: int| 0 <= i < places.len() implies !(
                #[trigger] places[i]).is_there by {
                    if i > 0 {
                        assert(places[i] == rest[i - 1]);
                    }
                }
            }
        } else {
            assert(first_there(places) == Some(places[0]));
        }
    }
}

/// A program that was named decides, whatever else was found: it is used where it
/// exists, and where it does not, both the variable and the place are told. Only
/// without a name is another one looked for.
pub proof fn law_named_program_decides<P>(
    r: Result<Place<P>, String>,
    named: Option<Place<P>>,
    found: Seq<Option<Place<P>>>,
    variable: Seq<char>,
    not_found: Seq<char>,
)
    requires
        is_resolved(r, named, found, variable, not_found),
    ensures
        named matches Some(place) ==> {
            &&& r is Ok <==> place.is_there
            &&& r matches Ok(p) ==> p == place
            &&& r matches Err(e) ==> e@ == variable + (" points to "@ + (place.shown@
                + " which doesn't exist"@))
        },
        named is None ==> {
            &&& r is Ok <==> exists|i: int| 0 <= i < found.len() && (#[trigger] found[i]) is Some
            &&& r matches Ok(p) ==> found.contains(Some(p))
            &&& r matches Err(e) ==> e@ == not_found
        },
{
    law_first_is_taken(found);
    if let Some(place) = named {
        if let Err(e) = r {
            assert(e@ == variable + (" points to "@ + (place.shown@ + " which doesn't exist"@)));
        }
    }
}

} // verus!
