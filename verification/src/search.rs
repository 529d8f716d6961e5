//! The search order: the candidate paths of an override value, followed by
//! the platform's default path.

use crate::platform::{default_library_path, default_path, Platform};
use vstd::prelude::*;

verus! {

/// The name of the environment variable that holds the override value.
pub const OVERRIDE_VARIABLE: &'static str = "OPENCL_DYLIB_PATH";

/// The character that separates the candidate paths of an override value.
pub const PATH_SEPARATOR: char = ';';

/// The pieces of `text` that lie between the occurrences of `separator`, from
/// left to right.
///
/// Read from the left, every occurrence of `separator` closes the current
/// piece and opens a new, empty one; every other character extends the
/// current piece. A text with `n` separators so has `n + 1` pieces, some of
/// which may be empty.
pub open spec fn split_on(text: Seq<char>, separator: char) -> Seq<Seq<char>>
    decreases text.len(),
{
    if text.len() == 0 {
        seq![Seq::<char>::empty()]
    } else {
        let before = split_on(text.drop_last(), separator);
        if text.last() == separator {
            before.push(Seq::<char>::empty())
        } else {
            before.drop_last().push(before.last().push(text.last()))
        }
    }
}

/// The paths to try, in order, for an override value (if one is set) on `platform`:
/// the override's candidates from left to right, then the platform's default path.
pub open spec fn search_order(override_value: Option<Seq<char>>, platform: Platform) -> Seq<
    Seq<char>,
> {
    match override_value {
        Some(value) => split_on(value, PATH_SEPARATOR).push(default_path(platform)),
        None => seq![default_path(platform)],
    }
}

/// What an optional override value holds, as a sequence of characters.
pub open spec fn override_view(override_value: Option<&str>) -> Option<Seq<char>> {
    match override_value {
        Some(value) => Some(value@),
        None => None,
    }
}

/// Splitting never yields an empty list: the last piece is the one that is still open.
pub proof fn lemma_split_is_nonempty(text: Seq<char>, separator: char)
    ensures
        split_on(text, separator).len() >= 1,
    decreases text.len(),
{
    if text.len() > 0 {
        lemma_split_is_nonempty(text.drop_last(), separator);
    }
}

/// A search order always ends with the platform's default path, which
/// comes right behind the candidates of the override value.
pub proof fn law_search_order_ends_with_default(
    override_value: Option<Seq<char>>,
    platform: Platform,
)
    ensures
        search_order(override_value, platform).len() >= 1,
        search_order(override_value, platform).last() == default_path(platform),
        search_order(override_value, platform).drop_last() == match override_value {
            Some(value) => split_on(value, PATH_SEPARATOR),
            None => Seq::<Seq<char>>::empty(),
        },
{
}

/// The text that has `pieces` as its pieces: they are put one behind the
/// other, with one `separator` between each two neighbours.
pub open spec fn join_with(pieces: Seq<Seq<char>>, separator: char) -> Seq<char>
    decreases pieces.len(),
{
    if pieces.len() == 0 {
        Seq::<char>::empty()
    } else if pieces.len() == 1 {
        pieces[0]
    } else {
        join_with(pieces.drop_last(), separator).push(separator) + pieces.last()
    }
}

/// No piece of a split holds the separator.
pub proof fn law_pieces_hold_no_separator(text: Seq<char>, separator: char)
    ensures
        forall|i: int|
            0 <= i < split_on(text, separator).len() ==> !(#[trigger] split_on(
                text,
                separator,
            )[i]).contains(separator),
    decreases text.len(),
{
    let pieces = split_on(text, separator);
    if text.len() == 0 {
        assert(!Seq::<char>::empty().contains(separator));
    } else {
        let before = split_on(text.drop_last(), separator);
        law_pieces_hold_no_separator(text.drop_last(), separator);
        lemma_split_is_nonempty(text.drop_last(), separator);
        assert forall|i: int| 0 <= i < pieces.len() implies !(#[trigger] pieces[i]).contains(
            separator,
        ) by {
            if i < pieces.len() - 1 {
                assert(pieces[i] == before[i]);
            } else if text.last() == separator {
                assert(pieces[i] == Seq::<char>::empty());
            } else {
                let grown = before.last().push(text.last());
                assert(pieces[i] == grown);
                assert(!before.last().contains(separator));
                assert forall|k: int| 0 <= k < grown.len() implies grown[k] != separator by {
                    if k < before.last().len() {
                        assert(before.last().contains(grown[k]));
                    }
                }
            }
        }
    }
}

/// Joining the pieces of a text with the separator gives the text back.
pub proof fn law_join_undoes_split(text: Seq<char>, separator: char)
    ensures
        join_with(split_on(text, separator), separator) == text,
    decreases text.len(),
{
    if text.len() == 0 {
    } else {
        let before = split_on(text.drop_last(), separator);
        law_join_undoes_split(text.drop_last(), separator);
        lemma_split_is_nonempty(text.drop_last(), separator);
        assert(text == text.drop_last().push(text.last()));
        if text.last() == separator {
            let pieces = before.push(Seq::<char>::empty());
            assert(pieces.drop_last() == before);
            assert(join_with(before, separator).push(separator) + Seq::<char>::empty()
                == join_with(before, separator).push(separator));
        } else {
            let grown = before.last().push(text.last());
            let pieces = before.drop_last().push(grown);
            assert(pieces.drop_last() == before.drop_last());
            if before.len() > 1 {
                let head = join_with(before.drop_last(), separator).push(separator);
                assert(head + grown == (head + before.last()).push(text.last()));
            }
        }
    }
}

/// Appending characters other than the separator to a text only extends the
/// last piece of its split.
proof fn lemma_split_of_extended_text(text: Seq<char>, more: Seq<char>, separator: char)
    requires
        !more.contains(separator),
    ensures
        split_on(text + more, separator) == split_on(text, separator).drop_last().push(
            split_on(text, separator).last() + more,
        ),
    decreases more.len(),
{
    let pieces = split_on(text, separator);
    lemma_split_is_nonempty(text, separator);
    if more.len() == 0 {
        assert(text + more == text);
        assert(pieces.last() + more == pieces.last());
        assert(pieces.drop_last().push(pieces.last()) == pieces);
    } else {
        let shorter = more.drop_last();
        assert forall|k: int| 0 <= k < shorter.len() implies shorter[k] != separator by {
            assert(more.contains(more[k]));
        }
        lemma_split_of_extended_text(text, shorter, separator);
        assert(more.contains(more.last()));
        assert((text + more).drop_last() == text + shorter);
        assert((text + more).last() == more.last());
        let before = pieces.drop_last().push(pieces.last() + shorter);
        assert(before.drop_last() == pieces.drop_last());
        assert((pieces.last() + shorter).push(more.last()) == pieces.last() + more);
    }
}

/// Splitting what was joined from pieces without a separator gives these
/// pieces back. With [`law_join_undoes_split`] this says what a split is: the
/// one list of separator-free pieces that join to the text.
pub proof fn law_split_undoes_join(pieces: Seq<Seq<char>>, separator: char)
    requires
        pieces.len() >= 1,
        forall|i: int| 0 <= i < pieces.len() ==> !(#[trigger] pieces[i]).contains(separator),
    ensures
        split_on(join_with(pieces, separator), separator) == pieces,
    decreases pieces.len(),
{
    let nothing = Seq::<char>::empty();
    if pieces.len() == 1 {
        lemma_split_of_extended_text(nothing, pieces[0], separator);
        assert(nothing + pieces[0] == pieces[0]);
        assert(seq![nothing].drop_last().push(nothing + pieces[0]) == pieces);
    } else {
        let front = pieces.drop_last();
        law_split_undoes_join(front, separator);
        let closed = join_with(front, separator).push(separator);
        assert(closed.drop_last() == join_with(front, separator));
        assert(split_on(closed, separator) == front.push(nothing));
        lemma_split_of_extended_text(closed, pieces.last(), separator);
        assert(front.push(nothing).drop_last() == front);
        assert(nothing + pieces.last() == pieces.last());
        assert(front.push(pieces.last()) == pieces);
    }
}

/// Splits an override value into its candidate paths: the pieces between
/// its separators, from left to right, empty ones included.
pub fn split_candidates(value: &str) -> (candidates: Vec<String>)
    ensures
        candidates.deep_view() == split_on(value@, PATH_SEPARATOR),
{
    let mut candidates: Vec<String> = Vec::new();
    let length: usize = value.unicode_len();
    let mut start: usize = 0;
    let mut position: usize = 0;
    proof {
        assert(candidates.deep_view() == Seq::<Seq<char>>::empty());
        assert(value@.subrange(0, 0) == Seq::<char>::empty());
        assert(value@.take(0).len() == 0);
        assert(Seq::<Seq<char>>::empty().push(Seq::<char>::empty()) == seq![Seq::<char>::empty()]);
    }
    for c in it: value.chars()
        invariant
            it.seq() == value@,
            length == value@.len(),
            position == it.index(),
            start <= position,
            candidates.deep_view().push(value@.subrange(start as int, position as int))
                == split_on(value@.take(position as int), PATH_SEPARATOR),
    {
        proof {
            let seen = value@.take(position + 1);
            assert(seen.drop_last() == value@.take(position as int));
            assert(seen.last() == c);
            lemma_split_is_nonempty(seen.drop_last(), PATH_SEPARATOR);
        }
        if c == PATH_SEPARATOR {
            let piece = value.substring_char(start, position);
            let ghost closed = candidates.deep_view();
            candidates.push(piece.to_owned());
            start = position + 1;
            proof {
                assert(candidates.deep_view() == closed.push(piece@));
                assert(value@.subrange(start as int, position + 1) == Seq::<char>::empty());
            }
        } else {
            proof {
                assert(value@.subrange(start as int, position + 1) == value@.subrange(
                    start as int,
                    position as int,
                ).push(c));
            }
        }
        position = position + 1;
    }
    let piece = value.substring_char(start, length);
    let ghost closed = candidates.deep_view();
    candidates.push(piece.to_owned());
    proof {
        assert(candidates.deep_view() == closed.push(piece@));
        assert(value@.take(length as int) == value@);
    }
    candidates
}

/// The paths to try, in order: the candidates of the override value, if one is
/// set, and then the default path of `platform`.
pub fn search_paths(override_value: Option<&str>, platform: Platform) -> (paths: Vec<String>)
    ensures
        paths.deep_view() == search_order(override_view(override_value), platform),
{
    let mut paths: Vec<String> = match override_value {
        Some(value) => split_candidates(value),
        None => Vec::new(),
    };
    let ghost candidates = paths.deep_view();
    paths.push(default_library_path(platform).to_owned());
    proof {
        assert(paths.deep_view() == candidates.push(default_path(platform)));
        if override_value is None {
            assert(candidates == Seq::<Seq<char>>::empty());
            assert(candidates.push(default_path(platform)) == seq![default_path(platform)]);
        }
    }
    paths
}

} // verus!
