//! Navigation between menus: which menu a widget leads to.

use vstd::prelude::*;
use crate::text::{chars_of, string_of};

verus! {

/// The part of `s` from its first `.` on, or nothing when it has none.
pub open spec fn from_first_dot(s: Seq<char>) -> Seq<char>
    decreases s.len(),
{
    if s.len() == 0 {
        Seq::empty()
    } else if s[0] == '.' {
        s
    } else {
        from_first_dot(s.skip(1))
    }
}

/// The menu that a widget titled `title` leads to: the menu of that name,
/// or, for a title with a `.` such as a level file name, the menu named by
/// the title from its first `.` on.
pub open spec fn menu_target(title: Seq<char>) -> Seq<char> {
    if from_first_dot(title).len() == 0 {
        title
    } else {
        from_first_dot(title)
    }
}

/// The menu that a widget titled `title` leads to.
pub fn target_menu(title: &String) -> (r: String)
    ensures
        r@ == menu_target(title@),
{
    let w = chars_of(title.as_str());
    let mut i: usize = 0;
    assert(w@.skip(0) =~= w@);
    while i < w.len() && w[i] != '.'
        invariant
            i <= w@.len(),
            from_first_dot(w@) == from_first_dot(w@.skip(i as int)),
        decreases w@.len() - i,
    {
        assert(w@.skip(i as int).skip(1) =~= w@.skip(i + 1));
        i = i + 1;
    }
    if i == w.len() {
        assert(w@.skip(i as int) =~= Seq::<char>::empty());
        string_of(&w, 0, w.len())
    } else {
        assert(w@.skip(i as int) =~= w@.subrange(i as int, w@.len() as int));
        string_of(&w, i, w.len())
    }
}

/// Where a name stands among the names of the menus.
#[derive(Clone, Copy, Debug, PartialEq, Eq, Structural)]
pub enum MenuLookup {
    /// No menu has the name.
    Missing,
    /// Exactly one menu, at this index, has the name.
    Unique(usize),
    /// Several menus have the name.
    Ambiguous,
}

/// Where `name` stands among `ids`.
pub fn find_menu(ids: &Vec<String>, name: &String) -> (r: MenuLookup)
    ensures
        r == MenuLookup::Missing <==> forall|i: int| 0 <= i < ids@.len() ==> (#[trigger] ids@[i])@ != name@,
        r matches MenuLookup::Unique(k) ==> k < ids@.len() && ids@[k as int]@ == name@ && forall|i: int|
            0 <= i < ids@.len() && i != k ==> (#[trigger] ids@[i])@ != name@,
        r == MenuLookup::Ambiguous <==> exists|i: int, j: int|
            0 <= i < j < ids@.len() && (#[trigger] ids@[i])@ == name@ && (#[trigger] ids@[j])@ == name@,
{
    let mut found: Option<usize> = None;
    let mut i: usize = 0;
    while i < ids.len()
        invariant
            i <= ids@.len(),
            found is None ==> forall|k: int| 0 <= k < i ==> (#[trigger] ids@[k])@ != name@,
            found matches Some(f) ==> f < i && ids@[f as int]@ == name@ && forall|k: int|
                0 <= k < i && k != f ==> (#[trigger] ids@[k])@ != name@,
        decreases ids@.len() - i,
    {
        if ids[i] == *name {
            match found {
                None => {
                    found = Some(i);
                },
                Some(f) => {
                    assert(ids@[f as int]@ == name@ && ids@[i as int]@ == name@);
                    return MenuLookup::Ambiguous;
                },
            }
        }
        i = i + 1;
    }
    match found {
        None => MenuLookup::Missing,
        Some(f) => {
            assert forall|a: int, b: int|
                0 <= a < b < ids@.len() && (#[trigger] ids@[a])@ == name@ implies (
                #[trigger] ids@[b])@ != name@ by {
                if a != f as int {
                } else {
                    assert(b != f as int);
                }
            }
            MenuLookup::Unique(f)
        },
    }
}

} // verus!
