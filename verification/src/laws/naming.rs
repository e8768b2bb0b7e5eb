//! Laws of the name that is shown for a file.

use crate::paths::{last_name, last_part};
use crate::text::occurs_at;
use vstd::prelude::*;

verus! {

/// The name shown for a file is a part of its path, as far as slashes decide it.
pub proof fn law_name_is_part_of_path(path: Seq<char>)
    ensures
        last_name(path) matches Some(name) ==> exists|at: int| occurs_at(path, name, at),
    decreases path.len(),
{
    lemma_last_part(path);
    let part = last_part(path);
    if path.len() > 0 && last_name(path) is Some {
        let name = last_name(path)->0;
        if part.len() == 0 || part == seq!['.'] {
            law_name_is_part_of_path(path.drop_last());
            let at = choose|at: int| occurs_at(path.drop_last(), name, at);
            assert(path.subrange(at, at + name.len()) =~= path.drop_last().subrange(
                at,
                at + name.len(),
            ));
            assert(occurs_at(path, name, at));
        } else {
            assert(path.subrange(path.len() - part.len(), path.len() as int) =~= part);
            assert(occurs_at(path, name, path.len() - name.len()));
        }
    }
}

/// A file is shown by its own name, whatever directory it lies in.
pub proof fn law_directory_is_not_shown(directory: Seq<char>, name: Seq<char>)
    requires
        name.len() > 0,
        !name.contains('/'),
        name != seq!['.'],
        name != seq!['.', '.'],
    ensures
        last_name(name) == Some(name),
        last_name(directory.push('/') + name) == Some(name),
{
    lemma_last_part_of_name(Seq::empty(), name);
    assert(Seq::<char>::empty() + name =~= name);
    lemma_last_part_of_name(directory.push('/'), name);
}

/// What follows the last slash is the end of the path.
proof fn lemma_last_part(path: Seq<char>)
    ensures
        last_part(path).len() <= path.len(),
        last_part(path) == path.skip(path.len() - last_part(path).len()),
    decreases path.len(),
{
    if path.len() > 0 && path.last() != '/' {
        lemma_last_part(path.drop_last());
        assert(last_part(path) =~= path.skip(path.len() - last_part(path).len()));
    }
}

proof fn lemma_last_part_of_name(directory: Seq<char>, name: Seq<char>)
    requires
        !name.contains('/'),
        directory.len() == 0 || directory.last() == '/',
    ensures
        last_part(directory + name) == name,
    decreases name.len(),
{
    if name.len() > 0 {
        let init = name.drop_last();
        assert(name.contains(name.last()));
        assert forall|i: int| 0 <= i < init.len() implies init[i] != '/' by {
            assert(name.contains(name[i]));
        }
        lemma_last_part_of_name(directory, init);
        assert((directory + name).drop_last() =~= directory + init);
        assert(init.push(name.last()) =~= name);
    } else {
        assert(directory + name =~= directory);
    }
}

} // verus!
