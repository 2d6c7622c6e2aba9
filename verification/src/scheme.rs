//! Wildcard schemes: the patterns by which a provider endpoint says which
//! URLs it can describe.
//!
//! A scheme is literal text interspersed with `*`. Matching steps through
//! the URL one path segment at a time: a wildcard inside a scheme stands for
//! a run of characters without `/`, and it ends at the first place where the
//! literal piece that follows it occurs. Only a wildcard that ends the
//! scheme takes whatever is left of the URL, separators and query included.
//! A scheme without any wildcard matches nothing. Comparison is by
//! character, case-sensitive, on the text as given.

use vstd::prelude::*;
use crate::text::chars_of;

verus! {

/// The character that marks a variable part of a scheme.
pub const WILDCARD: char = '*';

/// The character that separates path segments of a URL.
pub const SEPARATOR: char = '/';

/// The literal pieces of `pattern`: what stands before, between and after
/// its wildcards, in order. A pattern with n wildcards has n + 1 pieces, and
/// any of them may be empty.
pub open spec fn pieces(pattern: Seq<char>) -> Seq<Seq<char>>
    decreases pattern.len(),
{
    if pattern.len() == 0 {
        seq![Seq::empty()]
    } else {
        let before = pieces(pattern.drop_last());
        if pattern.last() == WILDCARD {
            before.push(Seq::empty())
        } else {
            before.drop_last().push(before.last().push(pattern.last()))
        }
    }
}

/// `piece` stands in `text` at position `at`.
pub open spec fn occurs_at(text: Seq<char>, at: int, piece: Seq<char>) -> bool {
    &&& 0 <= at
    &&& at + piece.len() <= text.len()
    &&& forall|k: int| 0 <= k < piece.len() ==> text[at + k] == #[trigger] piece[k]
}

/// A wildcard that begins at `from` ends at `stop`: `piece` occurs there,
/// it occurs nowhere earlier from `from` on, and no separator lies between.
pub open spec fn stops_at(text: Seq<char>, from: int, piece: Seq<char>, stop: int) -> bool {
    &&& from <= stop
    &&& occurs_at(text, stop, piece)
    &&& forall|k: int| from <= k < stop ==> #[trigger] text[k] != SEPARATOR
    &&& forall|k: int| from <= k < stop ==> !#[trigger] occurs_at(text, k, piece)
}

/// The rest of a scheme, each piece of `rest` preceded by a wildcard,
/// matches `text` from position `from` to its end.
pub open spec fn follows(text: Seq<char>, from: int, rest: Seq<Seq<char>>) -> bool
    decreases rest.len(),
{
    if rest.len() == 0 {
        from == text.len()
    } else if rest.len() == 1 && rest[0].len() == 0 {
        true
    } else {
        exists|stop: int|
            #[trigger] stops_at(text, from, rest[0], stop) && follows(
                text,
                stop + rest[0].len(),
                rest.drop_first(),
            )
    }
}

/// `url` satisfies the scheme `pattern`.
pub open spec fn scheme_matches(pattern: Seq<char>, url: Seq<char>) -> bool {
    let parts = pieces(pattern);
    &&& parts.len() >= 2
    &&& occurs_at(url, 0, parts[0])
    &&& follows(url, parts[0].len() as int, parts.drop_first())
}

/// The views of a vector of character vectors.
pub open spec fn piece_views(parts: Seq<Vec<char>>) -> Seq<Seq<char>> {
    Seq::new(parts.len(), |i: int| parts[i]@)
}

/// A wildcard ends in at most one place.
pub proof fn lemma_stop_is_unique(text: Seq<char>, from: int, piece: Seq<char>, a: int, b: int)
    requires
        stops_at(text, from, piece, a),
        stops_at(text, from, piece, b),
    ensures
        a == b,
{
    if a < b {
        assert(!occurs_at(text, a, piece));
    } else if b < a {
        assert(!occurs_at(text, b, piece));
    }
}

/// A pattern has one piece more than it has wildcards; in particular it has
/// a single piece exactly when it has no wildcard.
pub proof fn lemma_pieces_count(pattern: Seq<char>)
    ensures
        pieces(pattern).len() >= 1,
        pieces(pattern).len() == 1 <==> !pattern.contains(WILDCARD),
    decreases pattern.len(),
{
    if pattern.len() > 0 {
        let front = pattern.drop_last();
        lemma_pieces_count(front);
        if pattern.last() == WILDCARD {
            assert(pattern[pattern.len() - 1] == WILDCARD);
        } else {
            if front.contains(WILDCARD) {
                let i = choose|i: int| 0 <= i < front.len() && front[i] == WILDCARD;
                assert(pattern[i] == WILDCARD);
            }
            if pattern.contains(WILDCARD) {
                let i = choose|i: int| 0 <= i < pattern.len() && pattern[i] == WILDCARD;
                assert(front[i] == WILDCARD);
            }
        }
    }
}

/// A scheme without a wildcard matches no URL.
pub proof fn lemma_literal_scheme_matches_nothing(pattern: Seq<char>, url: Seq<char>)
    requires
        !pattern.contains(WILDCARD),
    ensures
        !scheme_matches(pattern, url),
{
    lemma_pieces_count(pattern);
}

/// A pattern without a wildcard is its own single piece.
pub proof fn lemma_literal_is_one_piece(pattern: Seq<char>)
    requires
        !pattern.contains(WILDCARD),
    ensures
        pieces(pattern) == seq![pattern],
    decreases pattern.len(),
{
    if pattern.len() == 0 {
        assert(pattern =~= Seq::empty());
    } else {
        let front = pattern.drop_last();
        if front.contains(WILDCARD) {
            let i = choose|i: int| 0 <= i < front.len() && front[i] == WILDCARD;
            assert(pattern[i] == WILDCARD);
        }
        lemma_literal_is_one_piece(front);
        assert(pattern[pattern.len() - 1] != WILDCARD);
        assert(front.push(pattern.last()) =~= pattern);
        assert(pieces(pattern) =~= seq![pattern]);
    }
}

/// Literal text behind a pattern lengthens the last piece of the pattern
/// and leaves the other pieces as they are.
pub proof fn lemma_pieces_of_longer(pattern: Seq<char>, tail: Seq<char>)
    requires
        !tail.contains(WILDCARD),
    ensures
        pieces(pattern + tail) == pieces(pattern).drop_last().push(pieces(pattern).last() + tail),
    decreases tail.len(),
{
    let parts = pieces(pattern);
    lemma_pieces_count(pattern);
    if tail.len() == 0 {
        assert(pattern + tail =~= pattern);
        assert(parts.last() + tail =~= parts.last());
        assert(parts.drop_last().push(parts.last()) =~= parts);
    } else {
        let shorter = tail.drop_last();
        if shorter.contains(WILDCARD) {
            let i = choose|i: int| 0 <= i < shorter.len() && shorter[i] == WILDCARD;
            assert(tail[i] == WILDCARD);
        }
        lemma_pieces_of_longer(pattern, shorter);
        assert((pattern + tail).drop_last() =~= pattern + shorter);
        assert((pattern + tail).last() == tail[tail.len() - 1]);
        let before = pieces(pattern + shorter);
        assert(before.drop_last() =~= parts.drop_last());
        assert(before.last().push(tail.last()) =~= parts.last() + tail);
    }
}

/// A literal prefix followed by one wildcard matches exactly the URLs that
/// begin with the prefix.
pub proof fn lemma_trailing_wildcard(prefix: Seq<char>, url: Seq<char>)
    requires
        !prefix.contains(WILDCARD),
    ensures
        scheme_matches(prefix.push(WILDCARD), url) <==> occurs_at(url, 0, prefix),
{
    let pattern = prefix.push(WILDCARD);
    lemma_literal_is_one_piece(prefix);
    assert(pattern.drop_last() =~= prefix);
    let parts = pieces(pattern);
    assert(parts =~= seq![prefix, Seq::empty()]);
    assert(parts.drop_first() =~= seq![Seq::empty()]);
}

/// A wildcard between two literal texts spans one segment: the scheme
/// matches exactly the URLs that begin with the first text and in which the
/// second text, reached without crossing a separator, stands for the first
/// time at the very end.
pub proof fn lemma_inner_wildcard(before: Seq<char>, after: Seq<char>, url: Seq<char>)
    requires
        !before.contains(WILDCARD),
        !after.contains(WILDCARD),
        after.len() > 0,
    ensures
        scheme_matches(before.push(WILDCARD) + after, url) <==> occurs_at(url, 0, before)
            && stops_at(url, before.len() as int, after, url.len() - after.len()),
        scheme_matches(before.push(WILDCARD) + after, url) ==> forall|k: int|
            before.len() <= k < url.len() - after.len() ==> #[trigger] url[k] != SEPARATOR,
{
    let head = before.push(WILDCARD);
    lemma_literal_is_one_piece(before);
    assert(head.drop_last() =~= before);
    assert(pieces(head) =~= seq![before, Seq::empty()]);
    lemma_pieces_of_longer(head, after);
    let parts = pieces(head + after);
    assert(Seq::<char>::empty() + after =~= after);
    assert(parts =~= seq![before, after]);
    let rest = parts.drop_first();
    assert(rest =~= seq![after]);
    assert(rest.drop_first() =~= Seq::<Seq<char>>::empty());
    let from = before.len() as int;
    let end = url.len() - after.len();
    if follows(url, from, rest) {
        let stop = choose|stop: int|
            #[trigger] stops_at(url, from, rest[0], stop) && follows(
                url,
                stop + rest[0].len(),
                rest.drop_first(),
            );
        assert(stop == end);
    }
    if stops_at(url, from, after, end) {
        assert(stops_at(url, from, rest[0], end) && follows(
            url,
            end + rest[0].len(),
            rest.drop_first(),
        ));
    }
}

/// Cuts `pattern` at its wildcards.
fn split_scheme(pattern: &Vec<char>) -> (parts: Vec<Vec<char>>)
    ensures
        piece_views(parts@) == pieces(pattern@),
{
    let mut parts: Vec<Vec<char>> = Vec::new();
    let mut current: Vec<char> = Vec::new();
    let mut i: usize = 0;
    assert(pattern@.take(0) =~= Seq::empty());
    assert(piece_views(parts@).push(current@) =~= seq![Seq::empty()]);
    while i < pattern.len()
        invariant
            i <= pattern.len(),
            piece_views(parts@).push(current@) == pieces(pattern@.take(i as int)),
        decreases pattern.len() - i,
    {
        let c = pattern[i];
        proof {
            let upto = pattern@.take(i + 1);
            assert(upto.drop_last() =~= pattern@.take(i as int));
            assert(upto.last() == c);
        }
        let ghost before = piece_views(parts@).push(current@);
        if c == WILDCARD {
            parts.push(current);
            current = Vec::new();
            assert(piece_views(parts@).push(current@) =~= before.push(Seq::empty()));
        } else {
            current.push(c);
            assert(piece_views(parts@).push(current@) =~= before.drop_last().push(
                before.last().push(c),
            ));
        }
        i += 1;
    }
    assert(pattern@.take(i as int) =~= pattern@);
    let ghost front = piece_views(parts@);
    let ghost last = current@;
    parts.push(current);
    assert(piece_views(parts@) =~= front.push(last));
    parts
}

/// Tells whether `piece` stands in `text` at position `at`.
fn occurs(text: &Vec<char>, at: usize, piece: &Vec<char>) -> (found: bool)
    requires
        at <= text.len(),
    ensures
        found == occurs_at(text@, at as int, piece@),
{
    if piece.len() > text.len() - at {
        return false;
    }
    let mut k: usize = 0;
    while k < piece.len()
        invariant
            k <= piece.len(),
            at + piece.len() <= text.len(),
            forall|j: int| 0 <= j < k ==> text@[at + j] == #[trigger] piece@[j],
        decreases piece.len() - k,
    {
        if text[at + k] != piece[k] {
            return false;
        }
        k += 1;
    }
    true
}

/// Looks for the place where a wildcard that begins at `from` ends.
fn find_stop(text: &Vec<char>, from: usize, piece: &Vec<char>) -> (stop: Option<usize>)
    requires
        from <= text.len(),
    ensures
        match stop {
            Some(s) => stops_at(text@, from as int, piece@, s as int),
            None => forall|s: int| !stops_at(text@, from as int, piece@, s),
        },
{
    let mut at: usize = from;
    loop
        invariant
            from <= at <= text.len(),
            forall|k: int| from <= k < at ==> #[trigger] text@[k] != SEPARATOR,
            forall|k: int| from <= k < at ==> !#[trigger] occurs_at(text@, k, piece@),
        decreases text.len() - at,
    {
        if occurs(text, at, piece) {
            return Some(at);
        }
        if at == text.len() || text[at] == SEPARATOR {
            assert forall|s: int| !stops_at(text@, from as int, piece@, s) by {
                if stops_at(text@, from as int, piece@, s) {
                    if s < at {
                        assert(!occurs_at(text@, s, piece@));
                    } else if s > at {
                        assert(!occurs_at(text@, at as int, piece@));
                        assert(text@[at as int] == SEPARATOR);
                    }
                }
            }
            return None;
        }
        at += 1;
    }
}

/// Checks whether `url` satisfies the wildcard pattern `scheme`.
///
/// The URL has to begin with the text before the first wildcard. Every
/// wildcard but a final one then stretches, without crossing a `/`, to the
/// first occurrence of the literal piece after it. A scheme that ends in a
/// wildcard accepts whatever is left; any other scheme has to use up the URL
/// exactly. A scheme without a wildcard matches nothing.
pub fn matches_scheme(scheme: &str, url: &str) -> (matched: bool)
    ensures
        matched == scheme_matches(scheme@, url@),
        !scheme@.contains(WILDCARD) ==> !matched,
{
    let pattern = chars_of(scheme);
    let text = chars_of(url);
    let parts = split_scheme(&pattern);
    proof {
        lemma_pieces_count(scheme@);
    }
    let ghost all = pieces(scheme@);
    assert(parts[0]@ == all[0]);
    if parts.len() < 2 || !occurs(&text, 0, &parts[0]) {
        return false;
    }
    let mut cursor: usize = parts[0].len();
    let mut i: usize = 1;
    assert(all.skip(1) =~= all.drop_first());
    while i < parts.len()
        invariant
            1 <= i <= parts.len(),
            cursor <= text.len(),
            text@ == url@,
            all == pieces(scheme@),
            piece_views(parts@) == all,
            scheme_matches(scheme@, url@) == follows(url@, cursor as int, all.skip(i as int)),
        decreases parts.len() - i,
    {
        let piece = &parts[i];
        let ghost rest = all.skip(i as int);
        assert(rest[0] == piece@);
        assert(rest.drop_first() =~= all.skip(i + 1));
        if i + 1 == parts.len() && piece.len() == 0 {
            return true;
        }
        match find_stop(&text, cursor, piece) {
            None => {
                return false;
            },
            Some(stop) => {
                proof {
                    assert forall|other: int| #[trigger]
                        stops_at(url@, cursor as int, piece@, other) implies other == stop by {
                        lemma_stop_is_unique(url@, cursor as int, piece@, other, stop as int);
                    }
                }
                cursor = stop + piece.len();
            },
        }
        i += 1;
    }
    assert(all.skip(i as int).len() == 0);
    cursor == text.len()
}

} // verus!
