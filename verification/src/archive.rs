//! The layout of an archive of binaries and of the directory it unpacks to.

use vstd::prelude::*;

verus! {

/// The name of the archive without any keys or file extensions. This is also
/// the name of the directory that unpacking the archive creates.
pub const ARCHIVE_NAME: &'static str = "skia-binaries";

/// Moves one entry of the unpacked directory; both paths are relative to the
/// output directory.
#[derive(Clone, Debug, PartialEq, Eq)]
pub struct Move {
    pub from: String,
    pub to: String,
}

/// The path of a child of the unpacked directory, seen from the output
/// directory.
pub open spec fn nested(child: Seq<char>) -> Seq<char> {
    ARCHIVE_NAME@ + "/"@ + child
}

/// Lists the moves that pull the children of the unpacked directory up one
/// level: each child goes, under its own name, to the output directory
/// itself. `children` are the names of the entries found in the unpacked
/// directory.
pub fn flatten(children: &[String]) -> (moves: Vec<Move>)
    ensures
        moves@.len() == children@.len(),
        forall|i: int|
            0 <= i < children@.len() ==> (#[trigger] moves@[i]).from@ == nested(children@[i]@)
                && moves@[i].to@ == children@[i]@,
{
    let mut moves: Vec<Move> = Vec::new();
    let mut i: usize = 0;
    while i < children.len()
        invariant
            i <= children@.len(),
            moves@.len() == i,
            forall|j: int|
                0 <= j < i ==> (#[trigger] moves@[j]).from@ == nested(children@[j]@)
                    && moves@[j].to@ == children@[j]@,
        decreases children@.len() - i,
    {
        let mut from = ARCHIVE_NAME.to_owned();
        from.append("/");
        from.append(children[i].as_str());
        moves.push(Move { from, to: children[i].clone() });
        i += 1;
    }
    moves
}

} // verus!
