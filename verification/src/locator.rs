//! Finding the rendering surface among the descendants of a top-level window.
//!
//! The surface is recognised by its window-class name. Class names arrive as
//! buffers of 16-bit units; the name in such a buffer is the run of units
//! before the first zero unit, or the whole buffer when it holds none. A name
//! matches when it has as many units as the surface class has characters and
//! each unit is the code of the character at its position, all sixteen bits
//! of it.

use vstd::prelude::*;

verus! {

broadcast use vstd::string::group_string_axioms;

/// Window-class name of the rendering surface that receives pointer input.
pub const SURFACE_CLASS: &'static str = "Chrome_RenderWidgetHostHWND";

/// A descendant window as the enumeration reports it: its handle and the
/// buffer that holds its class name.
#[derive(Clone, Debug)]
pub struct ChildWindow {
    pub handle: isize,
    pub class_name: Vec<u16>,
}

/// The first position at or after `from` where the name stops: the index of
/// a zero unit, or the length of the buffer.
pub open spec fn name_end(units: Seq<u16>, from: int) -> int
    decreases units.len() - from,
{
    if from < 0 || from >= units.len() {
        from
    } else if units[from] == 0 {
        from
    } else {
        name_end(units, from + 1)
    }
}

/// The class name that a buffer holds: its units before the terminator.
pub open spec fn class_name(units: Seq<u16>) -> Seq<u16> {
    units.take(name_end(units, 0))
}

/// The buffer names the rendering surface: its name is exactly as long as
/// [`SURFACE_CLASS`] and agrees with it unit for character.
pub open spec fn is_surface_class(units: Seq<u16>) -> bool {
    &&& name_end(units, 0) == SURFACE_CLASS@.len()
    &&& forall|i: int|
        0 <= i < name_end(units, 0) ==> (#[trigger] units[i]) as u32 == SURFACE_CLASS@[i] as u32
}

/// The first position at or after `from` of a child that is the rendering
/// surface, or the number of children when there is none.
pub open spec fn surface_index(children: Seq<ChildWindow>, from: int) -> int
    decreases children.len() - from,
{
    if from < 0 || from >= children.len() {
        from
    } else if is_surface_class(children[from].class_name@) {
        from
    } else {
        surface_index(children, from + 1)
    }
}

/// The handle of the first child, in enumeration order, that is the
/// rendering surface.
pub open spec fn first_surface(children: Seq<ChildWindow>) -> Option<isize> {
    let at = surface_index(children, 0);
    if at < children.len() {
        Some(children[at].handle)
    } else {
        None
    }
}

/// Where the name stops: never before `from`, never past the buffer, on a
/// zero unit unless the buffer ran out, and with no zero unit skipped on the
/// way.
pub proof fn lemma_name_end(units: Seq<u16>, from: int)
    requires
        0 <= from <= units.len(),
    ensures
        from <= name_end(units, from) <= units.len(),
        name_end(units, from) < units.len() ==> units[name_end(units, from)] == 0,
        forall|i: int| from <= i < name_end(units, from) ==> #[trigger] units[i] != 0,
    decreases units.len() - from,
{
    if from < units.len() && units[from] != 0 {
        lemma_name_end(units, from + 1);
    }
}

/// Where the search stops: never before `from`, never past the last child,
/// on a surface unless the children ran out, and with no surface skipped on
/// the way.
pub proof fn lemma_surface_index(children: Seq<ChildWindow>, from: int)
    requires
        0 <= from <= children.len(),
    ensures
        from <= surface_index(children, from) <= children.len(),
        surface_index(children, from) < children.len() ==> is_surface_class(
            children[surface_index(children, from)].class_name@,
        ),
        forall|i: int|
            from <= i < surface_index(children, from) ==> !is_surface_class(
                (#[trigger] children[i]).class_name@,
            ),
    decreases children.len() - from,
{
    if from < children.len() && !is_surface_class(children[from].class_name@) {
        lemma_surface_index(children, from + 1);
    }
}

/// Reads the class name out of a buffer of 16-bit units.
///
/// The name is the run of units before the first zero unit, taken as they
/// are. Reading never goes past the end of the buffer, terminated or not.
pub fn normalize_class_name(units: &[u16]) -> (name: Vec<u16>)
    ensures
        name@ == class_name(units@),
        name@.len() <= units@.len(),
        forall|i: int| 0 <= i < name@.len() ==> #[trigger] name@[i] == units@[i] && units@[i] != 0,
        name@.len() < units@.len() ==> units@[name@.len() as int] == 0,
{
    let mut name: Vec<u16> = Vec::new();
    let mut i: usize = 0;
    while i < units.len() && units[i] != 0
        invariant
            i <= units.len(),
            name_end(units@, 0) == name_end(units@, i as int),
            name@ == units@.take(i as int),
        decreases units.len() - i,
    {
        name.push(units[i]);
        i += 1;
    }
    proof {
        lemma_name_end(units@, 0);
    }
    name
}

/// Whether a class-name buffer names the rendering surface: the name in it
/// equals [`SURFACE_CLASS`] exactly, neither shorter nor longer, with every
/// unit compared in full.
pub fn matches_surface_class(units: &[u16]) -> (matches: bool)
    ensures
        matches == is_surface_class(units@),
{
    let mut i: usize = 0;
    for c in it: SURFACE_CLASS.chars()
        invariant
            it.seq() == SURFACE_CLASS@,
            i == it.index(),
            i <= units.len(),
            name_end(units@, 0) == name_end(units@, i as int),
            forall|k: int| 0 <= k < i ==> (#[trigger] units@[k]) as u32 == SURFACE_CLASS@[k] as u32,
    {
        if i >= units.len() || units[i] == 0 {
            return false;
        }
        if units[i] as u32 != c as u32 {
            proof {
                lemma_name_end(units@, i as int);
            }
            return false;
        }
        i += 1;
    }
    proof {
        lemma_name_end(units@, i as int);
    }
    i == units.len() || units[i] == 0
}

/// One step of the search, taken for each descendant in turn.
///
/// A descendant that is the rendering surface is recorded in `found` and
/// ends the search; any other leaves `found` alone and lets the search go on.
pub fn enum_windows(handle: isize, class_name: &[u16], found: &mut Option<isize>) -> (keep_going:
    bool)
    ensures
        keep_going == !is_surface_class(class_name@),
        *final(found) == if is_surface_class(class_name@) {
            Some(handle)
        } else {
            *old(found)
        },
{
    if matches_surface_class(class_name) {
        *found = Some(handle);
        return false;
    }
    true
}

/// Searches the descendants of a window, in enumeration order, for the
/// rendering surface.
///
/// Returns the handle of the first descendant whose class name is
/// [`SURFACE_CLASS`], and `None` exactly when no descendant has that name.
pub fn find_child_window(children: &Vec<ChildWindow>) -> (found: Option<isize>)
    ensures
        found == first_surface(children@),
        found is None <==> forall|i: int|
            0 <= i < children@.len() ==> !is_surface_class((#[trigger] children@[i]).class_name@),
        found matches Some(handle) ==> exists|i: int|
            0 <= i < children@.len() && is_surface_class((#[trigger] children@[i]).class_name@)
                && children@[i].handle == handle && forall|j: int|
                0 <= j < i ==> !is_surface_class((#[trigger] children@[j]).class_name@),
{
    let mut found: Option<isize> = None;
    let mut i: usize = 0;
    while i < children.len()
        invariant
            i <= children.len(),
            found is None,
            surface_index(children@, 0) == surface_index(children@, i as int),
        decreases children.len() - i,
    {
        let child = &children[i];
        let keep_going = enum_windows(child.handle, child.class_name.as_slice(), &mut found);
        if !keep_going {
            proof {
                lemma_surface_index(children@, 0);
            }
            return found;
        }
        i += 1;
    }
    proof {
        lemma_surface_index(children@, 0);
    }
    found
}

} // verus!
