//! Joining pieces of text with a separator.

use vstd::prelude::*;

verus! {

/// The pieces in order, with the separator between each two neighbours.
pub open spec fn joined(pieces: Seq<Seq<char>>, separator: Seq<char>) -> Seq<char>
    decreases pieces.len(),
{
    if pieces.len() == 0 {
        Seq::empty()
    } else if pieces.len() == 1 {
        pieces[0]
    } else {
        joined(pieces.drop_last(), separator) + separator + pieces.last()
    }
}

/// The views of a sequence of strings.
pub open spec fn texts(strings: Seq<String>) -> Seq<Seq<char>> {
    strings.map_values(|s: String| s@)
}

/// Joining one more piece onto a non-empty sequence puts the separator and
/// the piece at the end.
pub proof fn lemma_joined_push(pieces: Seq<Seq<char>>, separator: Seq<char>, piece: Seq<char>)
    ensures
        joined(pieces.push(piece), separator) == if pieces.len() == 0 {
            piece
        } else {
            joined(pieces, separator) + separator + piece
        },
{
    assert(pieces.push(piece).drop_last() =~= pieces);
}

/// Joins strings with a separator between each two neighbours.
pub fn join(strings: &Vec<String>, separator: &str) -> (text: String)
    ensures
        text@ == joined(texts(strings@), separator@),
{
    let mut text = String::new();
    let mut i: usize = 0;
    while i < strings.len()
        invariant
            i <= strings.len(),
            text@ == joined(texts(strings@).take(i as int), separator@),
        decreases strings.len() - i,
    {
        proof {
            let pieces = texts(strings@);
            assert(pieces.take(i + 1) =~= pieces.take(i as int).push(strings[i as int]@));
            lemma_joined_push(pieces.take(i as int), separator@, strings[i as int]@);
        }
        if i > 0 {
            text.append(separator);
        }
        text.append(strings[i].as_str());
        i += 1;
    }
    assert(texts(strings@).take(strings.len() as int) =~= texts(strings@));
    text
}

} // verus!
