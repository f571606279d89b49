//! Looking up the imports of an asset by their names.
//!
//! An asset lists what it takes from other packages. Each entry names the
//! package and the class of the imported object and the object itself, and
//! says inside which other entry it is. An entry is referred to by a
//! negative number: -1 for the first, -2 for the second, and so on.

use crate::codec::views;
use crate::effects::same_text;
use vstd::prelude::*;

verus! {

/// The names of one import, and the index of the entry that it is inside.
#[derive(Debug, Clone, PartialEq, Eq)]
pub struct ImportNames {
    pub class_package: String,
    pub class_name: String,
    pub object_name: String,
    pub outer_index: i32,
}

/// The names of one import as a mathematical value.
pub struct ImportNamesView {
    pub class_package: Seq<char>,
    pub class_name: Seq<char>,
    pub object_name: Seq<char>,
    pub outer_index: i32,
}

impl View for ImportNames {
    type V = ImportNamesView;

    open spec fn view(&self) -> ImportNamesView {
        ImportNamesView {
            class_package: self.class_package@,
            class_name: self.class_name@,
            object_name: self.object_name@,
            outer_index: self.outer_index,
        }
    }
}

/// What is looked for: the three names, and the outer entry where it
/// matters.
pub struct Wanted {
    pub class_package: Seq<char>,
    pub class_name: Seq<char>,
    pub object_name: Seq<char>,
    pub outer_index: Option<i32>,
}

/// An import has the names that are wanted, and is inside the wanted entry
/// where one is given.
pub open spec fn import_matches(import: ImportNamesView, wanted: Wanted) -> bool {
    &&& import.class_package == wanted.class_package
    &&& import.class_name == wanted.class_name
    &&& import.object_name == wanted.object_name
    &&& (wanted.outer_index matches Some(outer) ==> import.outer_index == outer)
}

/// The first import that matches stands at `i`.
pub open spec fn is_first_match(imports: Seq<ImportNamesView>, wanted: Wanted, i: int) -> bool {
    &&& 0 <= i < imports.len()
    &&& import_matches(imports[i], wanted)
    &&& forall|j: int| 0 <= j < i ==> !import_matches(#[trigger] imports[j], wanted)
}

/// No import matches.
pub open spec fn no_match(imports: Seq<ImportNamesView>, wanted: Wanted) -> bool {
    forall|j: int| 0 <= j < imports.len() ==> !import_matches(#[trigger] imports[j], wanted)
}

/// Whether an import has the wanted names and outer entry.
fn matches(
    import: &ImportNames,
    class_package: &str,
    class_name: &str,
    object_name: &str,
    outer_index: Option<i32>,
) -> (res: bool)
    ensures
        res == import_matches(
            import@,
            Wanted {
                class_package: class_package@,
                class_name: class_name@,
                object_name: object_name@,
                outer_index,
            },
        ),
{
    let inside = match outer_index {
        Some(outer) => import.outer_index == outer,
        None => true,
    };
    same_text(import.class_package.as_str(), class_package) && same_text(
        import.class_name.as_str(),
        class_name,
    ) && same_text(import.object_name.as_str(), object_name) && inside
}

/// The position of the first import that matches, if there is one.
fn first_match(
    imports: &Vec<ImportNames>,
    class_package: &str,
    class_name: &str,
    object_name: &str,
    outer_index: Option<i32>,
) -> (res: Option<usize>)
    ensures
        ({
            let wanted = Wanted {
                class_package: class_package@,
                class_name: class_name@,
                object_name: object_name@,
                outer_index,
            };
            match res {
                Some(i) => is_first_match(views(imports@), wanted, i as int),
                None => no_match(views(imports@), wanted),
            }
        }),
{
    let ghost wanted = Wanted {
        class_package: class_package@,
        class_name: class_name@,
        object_name: object_name@,
        outer_index,
    };
    let mut i: usize = 0;
    while i < imports.len()
        invariant
            i <= imports@.len(),
            wanted == (Wanted {
                class_package: class_package@,
                class_name: class_name@,
                object_name: object_name@,
                outer_index,
            }),
            forall|j: int| 0 <= j < i ==> !import_matches(#[trigger] views(imports@)[j], wanted),
        decreases imports@.len() - i,
    {
        if matches(&imports[i], class_package, class_name, object_name, outer_index) {
            assert(views(imports@)[i as int] == imports@[i as int]@);
            return Some(i);
        }
        assert(views(imports@)[i as int] == imports@[i as int]@);
        i = i + 1;
    }
    None
}

/// The position of the first import with the given names, if there is one.
pub fn find_import(
    imports: &Vec<ImportNames>,
    class_package: &str,
    class_name: &str,
    object_name: &str,
) -> (res: Option<usize>)
    ensures
        ({
            let wanted = Wanted {
                class_package: class_package@,
                class_name: class_name@,
                object_name: object_name@,
                outer_index: None,
            };
            match res {
                Some(i) => is_first_match(views(imports@), wanted, i as int),
                None => no_match(views(imports@), wanted),
            }
        }),
{
    first_match(imports, class_package, class_name, object_name, None)
}

/// The position of the first import with the given names inside the given
/// entry, if there is one.
pub fn find_import_inside(
    imports: &Vec<ImportNames>,
    class_package: &str,
    class_name: &str,
    object_name: &str,
    outer_index: i32,
) -> (res: Option<usize>)
    ensures
        ({
            let wanted = Wanted {
                class_package: class_package@,
                class_name: class_name@,
                object_name: object_name@,
                outer_index: Some(outer_index),
            };
            match res {
                Some(i) => is_first_match(views(imports@), wanted, i as int),
                None => no_match(views(imports@), wanted),
            }
        }),
{
    first_match(imports, class_package, class_name, object_name, Some(outer_index))
}

/// The number by which the import at a position is referred to.
pub open spec fn import_index_of(position: int) -> int {
    -position - 1
}

/// The number by which the import at a position is referred to, where it
/// fits into 32 bits.
pub fn import_index(position: usize) -> (index: Option<i32>)
    ensures
        position <= i32::MAX ==> index == Some(import_index_of(position as int) as i32),
        position > i32::MAX ==> index is None,
        index matches Some(i) ==> i < 0,
{
    if position > i32::MAX as usize {
        None
    } else {
        Some(-(position as i32) - 1)
    }
}

} // verus!
