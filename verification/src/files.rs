//! Decisions about paths on disk. The library touches no file: it is told
//! what was found and says what to keep or to do.
use vstd::prelude::*;

verus! {

/// The entries that were found, in order, without those that failed.
pub open spec fn successes<P, E>(found: Seq<Result<P, E>>) -> Seq<P> {
    found.filter(|entry: Result<P, E>| entry.is_ok()).map_values(
        |entry: Result<P, E>| entry->Ok_0,
    )
}

/// Adding one entry at the end adds it to the successes if it is one.
pub proof fn lemma_successes_push<P, E>(found: Seq<Result<P, E>>, entry: Result<P, E>)
    ensures
        successes(found.push(entry)) == match entry {
            Ok(path) => successes(found).push(path),
            Err(_) => successes(found),
        },
{
    reveal(Seq::filter);
    assert(found.push(entry).drop_last() =~= found);
    let kept = found.filter(|entry: Result<P, E>| entry.is_ok());
    match entry {
        Ok(path) => {
            assert(kept.push(entry).map_values(|entry: Result<P, E>| entry->Ok_0)
                =~= kept.map_values(|entry: Result<P, E>| entry->Ok_0).push(path));
        },
        Err(_) => {},
    }
}

/// The paths that a walk over a glob pattern found: every entry that could
/// be read, in the order of the walk. Entries that could not be read are
/// left out.
pub fn betterGlob<P, E>(found: Vec<Result<P, E>>) -> (paths: Vec<P>)
    ensures
        paths@ == successes(found@),
{
    let mut paths: Vec<P> = Vec::new();
    let ghost all = found@;
    proof {
        reveal(Seq::filter);
        assert(successes(all.take(0)) =~= Seq::<P>::empty());
    }
    for entry in walk: found
        invariant
            walk.seq() == all,
            paths@ == successes(all.take(walk.index() as int)),
    {
        proof {
            lemma_successes_push(all.take(walk.index() as int), entry);
            assert(all.take(walk.index() + 1) =~= all.take(walk.index() as int).push(entry));
        }
        match entry {
            Ok(path) => {
                paths.push(path);
            },
            Err(_) => {},
        }
    }
    proof {
        assert(all.take(all.len() as int) =~= all);
    }
    paths
}

/// What removing a path comes to.
#[derive(Clone, Copy, Debug, PartialEq, Eq, Structural)]
pub enum Removal {
    /// Nothing is there: nothing is to be done.
    Nothing,
    /// A directory is there: remove it with all that it holds.
    Directory,
    /// Something else is there: remove it as a file.
    File,
}

/// Decides how to remove a path, given whether anything is there and
/// whether what is there is a directory.
pub fn remove(present: bool, directory: bool) -> (removal: Removal)
    ensures
        !present ==> removal == Removal::Nothing,
        present && directory ==> removal == Removal::Directory,
        present && !directory ==> removal == Removal::File,
{
    if !present {
        Removal::Nothing
    } else if directory {
        Removal::Directory
    } else {
        Removal::File
    }
}

} // verus!
