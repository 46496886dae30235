//! Cutting text.
//!
//! What the relay reads arrives as text: the lines of an SDP, the entries
//! of a list. The functions here find a pattern in a text, take a prefix
//! from it and cut it at a separator. They hand out sub-slices of the text
//! they were given and never copy it.
//!
//! The contracts speak of a text as the sequence of its characters. The
//! work itself is done on the UTF-8 bytes of the text, and the lemmas of
//! this module carry what is found among the bytes over to the
//! characters.

use vstd::prelude::*;
use vstd::string::*;
use vstd::utf8::*;

verus! {

/// `pattern` stands in `text` at offset `at`.
pub open spec fn occurs_at<T>(text: Seq<T>, pattern: Seq<T>, at: int) -> bool {
    &&& 0 <= at
    &&& at + pattern.len() <= text.len()
    &&& text.subrange(at, at + pattern.len()) == pattern
}

/// `pattern` is not empty and stands in `text` at `at`, and nowhere before.
pub open spec fn first_occurrence<T>(text: Seq<T>, pattern: Seq<T>, at: int) -> bool {
    &&& pattern.len() > 0
    &&& occurs_at(text, pattern, at)
    &&& forall|j: int| 0 <= j < at ==> !occurs_at(text, pattern, j)
}

/// What is left of `text` once `prefix` is taken from its front, if it
/// begins with `prefix`.
pub open spec fn without_prefix<T>(text: Seq<T>, prefix: Seq<T>) -> Option<Seq<T>> {
    if occurs_at(text, prefix, 0) {
        Some(text.skip(prefix.len() as int))
    } else {
        None
    }
}

/// The pieces into which `separator` cuts `text`: the text before its first
/// occurrence, then the pieces of what follows that occurrence. A text
/// without the separator is one piece, and so is any text where the
/// separator is empty.
pub open spec fn split_on<T>(text: Seq<T>, separator: Seq<T>) -> Seq<Seq<T>>
    decreases text.len(),
{
    if exists|at: int| first_occurrence(text, separator, at) {
        let at = choose|at: int| first_occurrence(text, separator, at);
        seq![text.take(at)] + split_on(text.skip(at + separator.len()), separator)
    } else {
        seq![text]
    }
}

/// `split_on` cuts at the first occurrence, wherever it is.
pub proof fn lemma_split_on_cuts_first<T>(text: Seq<T>, separator: Seq<T>, at: int)
    requires
        first_occurrence(text, separator, at),
    ensures
        split_on(text, separator) == seq![text.take(at)] + split_on(
            text.skip(at + separator.len()),
            separator,
        ),
{
    let chosen = choose|at: int| first_occurrence(text, separator, at);
    assert(first_occurrence(text, separator, chosen));
    assert(chosen == at);
}

/// The text that is made of `pieces` with `separator` between every two
/// of them.
pub open spec fn join<T>(pieces: Seq<Seq<T>>, separator: Seq<T>) -> Seq<T>
    decreases pieces.len(),
{
    if pieces.len() == 0 {
        Seq::empty()
    } else if pieces.len() == 1 {
        pieces[0]
    } else {
        pieces[0] + separator + join(pieces.drop_first(), separator)
    }
}

/// A text is cut into at least one piece, and its pieces with the
/// separator between them are the text again.
pub proof fn lemma_split_then_join<T>(text: Seq<T>, separator: Seq<T>)
    ensures
        split_on(text, separator).len() >= 1,
        join(split_on(text, separator), separator) == text,
    decreases text.len(),
{
    if exists|at: int| first_occurrence(text, separator, at) {
        let at = choose|at: int| first_occurrence(text, separator, at);
        let rest = text.skip(at + separator.len());
        lemma_split_then_join(rest, separator);
        let pieces = split_on(text, separator);
        assert(pieces.drop_first() =~= split_on(rest, separator));
        assert(pieces[0] == text.take(at));
        assert(text.take(at) + separator + rest =~= text);
    }
}

/// No piece of a text holds the separator that cut the text.
pub proof fn lemma_pieces_hold_no_separator<T>(
    text: Seq<T>,
    separator: Seq<T>,
    piece: int,
    at: int,
)
    requires
        separator.len() > 0,
        0 <= piece < split_on(text, separator).len(),
    ensures
        !occurs_at(split_on(text, separator)[piece], separator, at),
    decreases text.len(),
{
    if exists|cut: int| first_occurrence(text, separator, cut) {
        let cut = choose|cut: int| first_occurrence(text, separator, cut);
        let rest = text.skip(cut + separator.len());
        if piece == 0 {
            let head = text.take(cut);
            if occurs_at(head, separator, at) {
                assert(text.subrange(at, at + separator.len()) =~= head.subrange(
                    at,
                    at + separator.len(),
                ));
                assert(occurs_at(text, separator, at));
            }
        } else {
            assert(split_on(text, separator)[piece] == split_on(rest, separator)[piece - 1]);
            lemma_pieces_hold_no_separator(rest, separator, piece - 1, at);
        }
    } else {
        if occurs_at(text, separator, at) {
            lemma_an_occurrence_has_a_first(text, separator, at);
        }
    }
}

/// Where a pattern stands in a text, it stands somewhere first.
proof fn lemma_an_occurrence_has_a_first<T>(text: Seq<T>, pattern: Seq<T>, at: int)
    requires
        pattern.len() > 0,
        occurs_at(text, pattern, at),
    ensures
        exists|first: int| first_occurrence(text, pattern, first),
    decreases at,
{
    if exists|j: int| 0 <= j < at && occurs_at(text, pattern, j) {
        let j = choose|j: int| 0 <= j < at && occurs_at(text, pattern, j);
        lemma_an_occurrence_has_a_first(text, pattern, j);
    } else {
        assert(first_occurrence(text, pattern, at));
    }
}

/// The characters of each text of a list.
pub open spec fn texts_of(list: Seq<&str>) -> Seq<Seq<char>> {
    Seq::new(list.len(), |i: int| list[i]@)
}

/// Tells whether `pattern` stands in `text` at byte offset `at`.
pub fn matches_at(text: &[u8], pattern: &[u8], at: usize) -> (found: bool)
    ensures
        found == occurs_at(text@, pattern@, at as int),
{
    if at > text.len() || pattern.len() > text.len() - at {
        return false;
    }
    let mut k: usize = 0;
    while k < pattern.len()
        invariant
            k <= pattern.len(),
            at + pattern.len() <= text.len(),
            forall|j: int| 0 <= j < k ==> text@[at + j] == pattern@[j],
        decreases pattern.len() - k,
    {
        if text[at + k] != pattern[k] {
            proof {
                let window = text@.subrange(at as int, at + pattern.len());
                assert(window[k as int] != pattern@[k as int]);
            }
            return false;
        }
        k += 1;
    }
    assert(text@.subrange(at as int, at + pattern.len()) =~= pattern@);
    true
}

/// Finds the first place where `pattern` stands in `text`. An empty pattern
/// is found nowhere.
pub fn find(text: &[u8], pattern: &[u8]) -> (place: Option<usize>)
    ensures
        match place {
            Some(at) => first_occurrence(text@, pattern@, at as int),
            None => pattern@.len() == 0 || forall|j: int| !occurs_at(text@, pattern@, j),
        },
{
    if pattern.len() == 0 || pattern.len() > text.len() {
        return None;
    }
    let last = text.len() - pattern.len();
    let mut at: usize = 0;
    while at <= last
        invariant
            pattern.len() > 0,
            last + pattern.len() == text.len(),
            at <= last + 1,
            forall|j: int| 0 <= j < at ==> !occurs_at(text@, pattern@, j),
        decreases last + 1 - at,
    {
        if matches_at(text, pattern, at) {
            return Some(at);
        }
        at += 1;
    }
    None
}

/// Two texts are equal exactly when their bytes are.
proof fn lemma_same_bytes_same_text(a: Seq<char>, b: Seq<char>)
    ensures
        (encode_utf8(a) == encode_utf8(b)) <==> a == b,
{
    encode_utf8_decode_utf8(a);
    encode_utf8_decode_utf8(b);
}

/// The bytes of two texts in a row are the bytes of the first, then the
/// bytes of the second.
proof fn lemma_bytes_of_a_row(a: Seq<char>, b: Seq<char>)
    ensures
        encode_utf8(a + b) == encode_utf8(a) + encode_utf8(b),
    decreases a.len(),
{
    if a.len() == 0 {
        assert(a + b =~= b);
        assert(encode_utf8(a) + encode_utf8(b) =~= encode_utf8(b));
    } else {
        assert((a + b).drop_first() =~= a.drop_first() + b);
        lemma_bytes_of_a_row(a.drop_first(), b);
        assert(encode_utf8(a + b) =~= encode_utf8(a) + encode_utf8(b));
    }
}

/// A text has at least as many bytes as it has characters.
proof fn lemma_every_character_has_bytes(a: Seq<char>)
    ensures
        encode_utf8(a).len() >= a.len(),
    decreases a.len(),
{
    if a.len() > 0 {
        lemma_every_character_has_bytes(a.drop_first());
    }
}

/// Where a pattern stands among the characters of a text, its bytes stand
/// among the bytes of the text, behind the bytes of what goes before.
proof fn lemma_occurrence_shows_in_bytes(text: Seq<char>, pattern: Seq<char>, at: int)
    requires
        occurs_at(text, pattern, at),
    ensures
        occurs_at(encode_utf8(text), encode_utf8(pattern), encode_utf8(text.take(at)).len() as int),
{
    let before = text.take(at);
    let after = text.skip(at + pattern.len());
    assert(text =~= before + pattern + after);
    lemma_bytes_of_a_row(before + pattern, after);
    lemma_bytes_of_a_row(before, pattern);
    let bytes = encode_utf8(text);
    let start = encode_utf8(before).len() as int;
    assert(bytes == encode_utf8(before) + encode_utf8(pattern) + encode_utf8(after));
    assert(bytes.subrange(start, start + encode_utf8(pattern).len()) =~= encode_utf8(pattern));
}

/// A longer beginning of a text has more bytes than a shorter one.
proof fn lemma_longer_beginnings_have_more_bytes(text: Seq<char>, shorter: int, longer: int)
    requires
        0 <= shorter < longer <= text.len(),
    ensures
        encode_utf8(text.take(shorter)).len() < encode_utf8(text.take(longer)).len(),
{
    let gap = text.subrange(shorter, longer);
    assert(text.take(longer) =~= text.take(shorter) + gap);
    lemma_bytes_of_a_row(text.take(shorter), gap);
    lemma_every_character_has_bytes(gap);
}

/// The first byte of well-formed UTF-8 never is a continuation byte.
proof fn lemma_first_byte_leads(bytes: Seq<u8>)
    requires
        valid_utf8(bytes),
        bytes.len() > 0,
    ensures
        !is_continuation_byte(bytes[0]),
{
}

/// Where a well-formed text begins with a well-formed text, the end of
/// that beginning falls between two characters.
proof fn lemma_prefix_ends_at_boundary(bytes: Seq<u8>, k: int)
    requires
        valid_utf8(bytes),
        0 <= k <= bytes.len(),
        valid_utf8(bytes.subrange(0, k)),
    ensures
        is_char_boundary(bytes, k),
    decreases bytes.len(),
{
    if k > 0 {
        let head = bytes.subrange(0, k);
        let width = length_of_first_scalar(bytes);
        assert(head[0] == bytes[0]);
        assert(length_of_first_scalar(head) == width);
        assert(width <= k);
        assert(pop_first_scalar(head) =~= pop_first_scalar(bytes).subrange(0, k - width));
        lemma_prefix_ends_at_boundary(pop_first_scalar(bytes), k - width);
    }
}

/// Tells whether two texts are the same.
pub fn same_text(a: &str, b: &str) -> (same: bool)
    ensures
        same == (a@ == b@),
{
    let x = a.as_bytes();
    let y = b.as_bytes();
    proof {
        lemma_same_bytes_same_text(a@, b@);
    }
    if x.len() != y.len() {
        return false;
    }
    let found = matches_at(x, y, 0);
    proof {
        assert(x@.subrange(0, x@.len() as int) =~= x@);
    }
    found
}

/// Removes `prefix` from the front of `text`; `None` where `text` does not
/// begin with it.
pub fn strip_prefix<'a>(text: &'a str, prefix: &str) -> (rest: Option<&'a str>)
    ensures
        match rest {
            Some(rest) => without_prefix(text@, prefix@) == Some(rest@),
            None => without_prefix(text@, prefix@) is None,
        },
{
    let bytes = text.as_bytes();
    let wanted = prefix.as_bytes();
    if !matches_at(bytes, wanted, 0) {
        proof {
            if occurs_at(text@, prefix@, 0) {
                lemma_occurrence_shows_in_bytes(text@, prefix@, 0);
                assert(text@.take(0) =~= Seq::<char>::empty());
            }
        }
        return None;
    }
    proof {
        encode_utf8_valid_utf8(text@);
        encode_utf8_valid_utf8(prefix@);
        lemma_prefix_ends_at_boundary(bytes@, wanted@.len() as int);
    }
    let (_, rest) = text.split_at(wanted.len());
    proof {
        assert(bytes@ =~= wanted@ + rest.spec_bytes());
        lemma_bytes_of_a_row(prefix@, rest@);
        lemma_same_bytes_same_text(text@, prefix@ + rest@);
        assert(text@.subrange(0, prefix@.len() as int) =~= prefix@);
        assert(text@.skip(prefix@.len() as int) =~= rest@);
    }
    Some(rest)
}

/// Cuts `text` at every occurrence of `separator`, from the left. The
/// pieces keep their order and never hold the separator that cut them; an
/// empty separator cuts nothing.
pub fn split<'a>(text: &'a str, separator: &str) -> (pieces: Vec<&'a str>)
    ensures
        texts_of(pieces@) == split_on(text@, separator@),
{
    let cut = separator.as_bytes();
    let mut pieces: Vec<&'a str> = Vec::new();
    let mut rest: &'a str = text;
    proof {
        assert(texts_of(pieces@) + split_on(rest@, separator@) =~= split_on(text@, separator@));
    }
    loop
        invariant
            cut@ == separator.spec_bytes(),
            texts_of(pieces@) + split_on(rest@, separator@) == split_on(text@, separator@),
        decreases rest.spec_bytes().len(),
    {
        let bytes = rest.as_bytes();
        match find(bytes, cut) {
            None => {
                proof {
                    lemma_every_character_has_bytes(separator@);
                    assert forall|j: int| !first_occurrence(rest@, separator@, j) by {
                        if first_occurrence(rest@, separator@, j) {
                            lemma_occurrence_shows_in_bytes(rest@, separator@, j);
                        }
                    }
                    assert(texts_of(pieces@.push(rest)) =~= texts_of(pieces@) + seq![rest@]);
                }
                pieces.push(rest);
                return pieces;
            },
            Some(at) => {
                proof {
                    encode_utf8_valid_utf8(rest@);
                    encode_utf8_valid_utf8(separator@);
                    lemma_first_byte_leads(cut@);
                    assert(bytes@.subrange(at as int, at + cut@.len())[0] == cut@[0]);
                    is_char_boundary_iff_not_is_continuation_byte(bytes@, at as int);
                }
                let (head, tail) = rest.split_at(at);
                proof {
                    encode_utf8_valid_utf8(tail@);
                    assert(tail.spec_bytes().subrange(0, cut@.len() as int) =~= cut@);
                    lemma_prefix_ends_at_boundary(tail.spec_bytes(), cut@.len() as int);
                }
                let (_, next) = tail.split_at(cut.len());
                proof {
                    let place = head@.len() as int;
                    assert(bytes@ =~= head.spec_bytes() + cut@ + next.spec_bytes());
                    lemma_bytes_of_a_row(head@ + separator@, next@);
                    lemma_bytes_of_a_row(head@, separator@);
                    lemma_same_bytes_same_text(rest@, head@ + separator@ + next@);
                    assert(rest@.subrange(place, place + separator@.len()) =~= separator@);
                    assert(rest@.take(place) =~= head@);
                    assert(rest@.skip(place + separator@.len()) =~= next@);
                    assert(separator@.len() > 0) by {
                        if separator@.len() == 0 {
                            assert(encode_utf8(separator@).len() == 0);
                        }
                    }
                    assert forall|j: int| 0 <= j < place implies !occurs_at(
                        rest@,
                        separator@,
                        j,
                    ) by {
                        if occurs_at(rest@, separator@, j) {
                            lemma_occurrence_shows_in_bytes(rest@, separator@, j);
                            lemma_longer_beginnings_have_more_bytes(rest@, j, place);
                        }
                    }
                    lemma_split_on_cuts_first(rest@, separator@, place);
                    assert(texts_of(pieces@.push(head)) =~= texts_of(pieces@) + seq![head@]);
                }
                pieces.push(head);
                rest = next;
            },
        }
    }
}

/// Tells whether `pattern` stands anywhere in `text`. The empty pattern
/// stands in every text.
pub fn contains(text: &str, pattern: &str) -> (found: bool)
    ensures
        found == exists|at: int| occurs_at(text@, pattern@, at),
{
    if pattern.as_bytes().len() == 0 {
        proof {
            assert(pattern@.len() == 0) by {
                lemma_every_character_has_bytes(pattern@);
            }
            assert(text@.subrange(0, 0) =~= pattern@);
            assert(occurs_at(text@, pattern@, 0));
        }
        return true;
    }
    let pieces = split(text, pattern);
    proof {
        assert(texts_of(pieces@).len() == pieces@.len());
        assert(pattern@.len() > 0) by {
            if pattern@.len() == 0 {
                assert(encode_utf8(pattern@).len() == 0);
            }
        }
        if exists|at: int| occurs_at(text@, pattern@, at) {
            let at = choose|at: int| occurs_at(text@, pattern@, at);
            lemma_an_occurrence_has_a_first(text@, pattern@, at);
            let first = choose|first: int| first_occurrence(text@, pattern@, first);
            lemma_split_on_cuts_first(text@, pattern@, first);
            lemma_split_then_join(text@.skip(first + pattern@.len()), pattern@);
        }
    }
    pieces.len() > 1
}

} // verus!
