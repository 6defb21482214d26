//! Texts as sequences of characters: pieces between separators, prefixes, white space.
use vstd::prelude::*;

verus! {

/// Specifies `String::push`: the character is added at the end.
pub assume_specification[ String::push ](text: &mut String, c: char)
    ensures
        final(text)@ == old(text)@.push(c),
;

/// Specifies `str::trim`: what is left of the text without the white space, in the sense of
/// Unicode's property White_Space, that it begins and ends with.
pub assume_specification[ str::trim ](text: &str) -> (inner: &str)
    ensures
        inner@ == trimmed(text@),
;

/// The characters with Unicode's property White_Space.
pub open spec fn is_white_space(c: char) -> bool {
    let code = c as u32;
    ||| 0x9 <= code <= 0xd
    ||| code == 0x20
    ||| code == 0x85
    ||| code == 0xa0
    ||| code == 0x1680
    ||| 0x2000 <= code <= 0x200a
    ||| code == 0x2028
    ||| code == 0x2029
    ||| code == 0x202f
    ||| code == 0x205f
    ||| code == 0x3000
}

/// The text without the white space that it begins with.
pub open spec fn without_leading_white_space(text: Seq<char>) -> Seq<char>
    decreases text.len(),
{
    if text.len() > 0 && is_white_space(text.first()) {
        without_leading_white_space(text.drop_first())
    } else {
        text
    }
}

/// The text without the white space that it ends with.
pub open spec fn without_trailing_white_space(text: Seq<char>) -> Seq<char>
    decreases text.len(),
{
    if text.len() > 0 && is_white_space(text.last()) {
        without_trailing_white_space(text.drop_last())
    } else {
        text
    }
}

/// The text without the white space that it begins and ends with.
pub open spec fn trimmed(text: Seq<char>) -> Seq<char> {
    without_trailing_white_space(without_leading_white_space(text))
}

/// The digit of `value` in base sixteen.
pub open spec fn hex_digit(value: int) -> char {
    if value < 10 {
        (('0' as int) + value) as char
    } else {
        (('a' as int) + value - 10) as char
    }
}

/// The views of a sequence of strings.
pub open spec fn texts(items: Seq<String>) -> Seq<Seq<char>> {
    items.map_values(|item: String| item@)
}

/// The view of a string that may be missing.
pub open spec fn optional_text(text: Option<String>) -> Option<Seq<char>> {
    match text {
        Some(text) => Some(text@),
        None => None,
    }
}

/// The pieces of `text` between the occurrences of `separator`: one more than there are
/// occurrences.
pub open spec fn pieces(text: Seq<char>, separator: char) -> Seq<Seq<char>>
    decreases text.len(),
{
    if text.len() == 0 {
        seq![Seq::empty()]
    } else {
        let front = pieces(text.drop_last(), separator);
        if text.last() == separator {
            front.push(Seq::empty())
        } else {
            front.drop_last().push(front.last().push(text.last()))
        }
    }
}

/// The texts one after the other, with `separator` between them.
pub open spec fn joined(items: Seq<Seq<char>>, separator: char) -> Seq<char>
    decreases items.len(),
{
    if items.len() == 0 {
        Seq::empty()
    } else if items.len() == 1 {
        items[0]
    } else {
        joined(items.drop_last(), separator).push(separator) + items.last()
    }
}

/// The pieces of a text are free of the separator, and with the separator put back between
/// them they are the text.
pub proof fn lemma_pieces(text: Seq<char>, separator: char)
    ensures
        pieces(text, separator).len() > 0,
        forall|i: int|
            0 <= i < pieces(text, separator).len() ==> !(#[trigger] pieces(
                text,
                separator,
            )[i]).contains(separator),
        joined(pieces(text, separator), separator) == text,
    decreases text.len(),
{
    let all = pieces(text, separator);
    if text.len() > 0 {
        let front = pieces(text.drop_last(), separator);
        lemma_pieces(text.drop_last(), separator);
        assert(text.drop_last().push(text.last()) == text);
        if text.last() == separator {
            assert(all.drop_last() == front);
            assert(joined(all, separator) == text);
        } else {
            assert(all.drop_last() == front.drop_last());
            assert(!front[front.len() - 1].contains(separator));
            assert(!all.last().contains(separator));
            assert(forall|i: int| 0 <= i < front.len() - 1 ==> all[i] == front[i]);
            if front.len() == 1 {
                assert(front[0] == text.drop_last());
            }
            assert(joined(all, separator) == text);
        }
    }
}

/// The pieces of two texts with a separator between them are those of the first and then
/// those of the second.
pub proof fn lemma_pieces_of_concatenation(front: Seq<char>, separator: char, back: Seq<char>)
    ensures
        pieces(front.push(separator) + back, separator) == pieces(front, separator) + pieces(
            back,
            separator,
        ),
    decreases back.len(),
{
    let whole = front.push(separator) + back;
    let first = pieces(front, separator);
    if back.len() == 0 {
        assert(whole == front.push(separator));
        assert(whole.drop_last() == front);
        assert(pieces(whole, separator) == first + pieces(back, separator));
    } else {
        let shorter = back.drop_last();
        let second = pieces(shorter, separator);
        lemma_pieces_of_concatenation(front, separator, shorter);
        lemma_pieces(shorter, separator);
        assert(whole.drop_last() == front.push(separator) + shorter);
        assert(whole.last() == back.last());
        assert((first + second).drop_last() == first + second.drop_last());
        assert((first + second).last() == second.last());
        assert(pieces(whole, separator) == first + pieces(back, separator));
    }
}

/// A text that is free of the separator is its own only piece.
pub proof fn lemma_single_piece(text: Seq<char>, separator: char)
    requires
        !text.contains(separator),
    ensures
        pieces(text, separator) == seq![text],
    decreases text.len(),
{
    if text.len() > 0 {
        let shorter = text.drop_last();
        assert(!shorter.contains(separator)) by {
            assert forall|i: int| 0 <= i < shorter.len() implies shorter[i] != separator by {
                assert(text[i] == shorter[i]);
            }
        }
        lemma_single_piece(shorter, separator);
        assert(text[text.len() - 1] != separator);
        assert(shorter.push(text.last()) == text);
        assert(pieces(text, separator) == seq![text]);
    } else {
        assert(text == Seq::<char>::empty());
    }
}

/// A trimmed text is a part of the text, and neither begins nor ends with white space.
pub proof fn lemma_trimmed(text: Seq<char>)
    ensures
        forall|c: char| trimmed(text).contains(c) ==> text.contains(c),
        trimmed(text).len() > 0 ==> !is_white_space(trimmed(text).first()) && !is_white_space(
            trimmed(text).last(),
        ),
{
    lemma_without_leading(text);
    lemma_without_trailing(without_leading_white_space(text));
}

/// A text that neither begins nor ends with white space is as it is trimmed.
pub proof fn lemma_trimmed_already(text: Seq<char>)
    requires
        text.len() > 0 ==> !is_white_space(text.first()) && !is_white_space(text.last()),
    ensures
        trimmed(text) == text,
{
}

proof fn lemma_without_leading(text: Seq<char>)
    ensures
        forall|c: char| without_leading_white_space(text).contains(c) ==> text.contains(c),
        without_leading_white_space(text).len() > 0 ==> !is_white_space(
            without_leading_white_space(text).first(),
        ),
    decreases text.len(),
{
    if text.len() > 0 && is_white_space(text.first()) {
        let rest = text.drop_first();
        lemma_without_leading(rest);
        assert forall|c: char| rest.contains(c) implies text.contains(c) by {
            let i = choose|i: int| 0 <= i < rest.len() && rest[i] == c;
            assert(text[i + 1] == c);
        }
    }
}

proof fn lemma_without_trailing(text: Seq<char>)
    ensures
        forall|c: char| without_trailing_white_space(text).contains(c) ==> text.contains(c),
        without_trailing_white_space(text).len() > 0 ==> !is_white_space(
            without_trailing_white_space(text).last(),
        ) && without_trailing_white_space(text).first() == text.first(),
    decreases text.len(),
{
    if text.len() > 0 && is_white_space(text.last()) {
        let rest = text.drop_last();
        lemma_without_trailing(rest);
        assert forall|c: char| rest.contains(c) implies text.contains(c) by {
            let i = choose|i: int| 0 <= i < rest.len() && rest[i] == c;
            assert(text[i] == c);
        }
    }
}

/// The pieces of `text` between the occurrences of `separator`.
pub fn split(text: &str, separator: char) -> (found: Vec<String>)
    ensures
        texts(found@) == pieces(text@, separator),
{
    let mut found: Vec<String> = Vec::new();
    let mut current: String = String::new();
    for c in it: text.chars()
        invariant
            it.seq() == text@,
            texts(found@).push(current@) == pieces(text@.take(it.index()), separator),
    {
        let ghost upto = text@.take(it.index() + 1);
        assert(upto.drop_last() == text@.take(it.index()));
        if c == separator {
            found.push(current);
            current = String::new();
        } else {
            current.push(c);
        }
        assert(texts(found@).push(current@) == pieces(upto, separator));
    }
    assert(text@.take(text@.len() as int) == text@);
    found.push(current);
    found
}

/// The characters of a text.
pub fn characters(text: &str) -> (found: Vec<char>)
    ensures
        found@ == text@,
{
    let mut found: Vec<char> = Vec::new();
    for c in it: text.chars()
        invariant
            it.seq() == text@,
            found@ == text@.take(it.index()),
    {
        found.push(c);
    }
    assert(text@.take(text@.len() as int) == text@);
    found
}

/// What follows `prefix` in a text that begins with it.
pub fn strip_prefix(text: &str, prefix: &str) -> (rest: Option<String>)
    ensures
        match rest {
            Some(rest) => text@ == prefix@ + rest@,
            None => !prefix@.is_prefix_of(text@),
        },
{
    let expected: Vec<char> = characters(prefix);
    let mut matched: usize = 0;
    let mut rest: String = String::new();
    for c in it: text.chars()
        invariant
            it.seq() == text@,
            expected@ == prefix@,
            matched <= expected@.len(),
            matched < expected@.len() ==> rest@.len() == 0,
            text@.take(it.index()) == prefix@.take(matched as int) + rest@,
    {
        assert(text@.take(it.index() + 1) == text@.take(it.index()).push(c));
        if matched < expected.len() {
            if c != expected[matched] {
                assert(text@[it.index()] != prefix@[it.index()]);
                return None;
            }
            assert(prefix@.take(matched + 1) == prefix@.take(matched as int).push(c));
            matched += 1;
        } else {
            rest.push(c);
        }
        assert(text@.take(it.index() + 1) == prefix@.take(matched as int) + rest@);
    }
    assert(text@.take(text@.len() as int) == text@);
    if matched < expected.len() {
        return None;
    }
    assert(prefix@.take(matched as int) == prefix@);
    Some(rest)
}

/// The view of a sequence of strings has the characters of each, in the same order.
pub proof fn lemma_texts(items: Seq<String>)
    ensures
        texts(items).len() == items.len(),
        forall|i: int| 0 <= i < items.len() ==> #[trigger] texts(items)[i] == items[i]@,
{
}

/// The sixteen digits, in the order of their values.
pub proof fn lemma_hex_digits(value: int)
    requires
        0 <= value < 16,
    ensures
        hex_digit(value) == "0123456789abcdef"@[value],
{
    reveal_strlit("0123456789abcdef");
}

proof fn lemma_leading_white_space_goes(before: Seq<char>, rest: Seq<char>)
    requires
        forall|i: int| 0 <= i < before.len() ==> is_white_space(#[trigger] before[i]),
        rest.len() > 0 ==> !is_white_space(rest.first()),
    ensures
        without_leading_white_space(before + rest) == rest,
    decreases before.len(),
{
    let whole = before + rest;
    if before.len() == 0 {
        assert(whole == rest);
    } else {
        assert(whole.first() == before[0]);
        assert(whole.drop_first() == before.drop_first() + rest);
        lemma_leading_white_space_goes(before.drop_first(), rest);
    }
}

proof fn lemma_trailing_white_space_goes(rest: Seq<char>, after: Seq<char>)
    requires
        forall|i: int| 0 <= i < after.len() ==> is_white_space(#[trigger] after[i]),
        rest.len() > 0 ==> !is_white_space(rest.last()),
    ensures
        without_trailing_white_space(rest + after) == rest,
    decreases after.len(),
{
    let whole = rest + after;
    if after.len() == 0 {
        assert(whole == rest);
    } else {
        assert(whole.last() == after[after.len() - 1]);
        assert(whole.drop_last() == rest + after.drop_last());
        lemma_trailing_white_space_goes(rest, after.drop_last());
    }
}

/// Trimming takes away just the white space around: of a text that neither begins nor ends
/// with white space, with any white space before and after it, that text is left.
pub proof fn lemma_trimmed_is_what_is_inside(before: Seq<char>, inner: Seq<char>, after: Seq<char>)
    requires
        forall|i: int| 0 <= i < before.len() ==> is_white_space(#[trigger] before[i]),
        forall|i: int| 0 <= i < after.len() ==> is_white_space(#[trigger] after[i]),
        inner.len() > 0 ==> !is_white_space(inner.first()) && !is_white_space(inner.last()),
    ensures
        trimmed(before + inner + after) == inner,
{
    if inner.len() > 0 {
        assert(before + inner + after == before + (inner + after));
        lemma_leading_white_space_goes(before, inner + after);
        lemma_trailing_white_space_goes(inner, after);
    } else {
        let whole = before + inner + after;
        assert(whole == whole + inner);
        assert forall|i: int| 0 <= i < whole.len() implies is_white_space(#[trigger] whole[i]) by {
            if i < before.len() {
                assert(whole[i] == before[i]);
            } else {
                assert(whole[i] == after[i - before.len()]);
            }
        }
        lemma_leading_white_space_goes(whole, inner);
        assert(trimmed(whole) == inner);
    }
}

/// The view of a string that may be missing is missing with it, and has its characters
/// otherwise.
pub proof fn lemma_optional_text(text: Option<String>)
    ensures
        text is Some ==> optional_text(text) == Some(text->0@),
        text is None ==> optional_text(text) is None,
{
}

/// Joined texts begin with the first of them, a separator, and then the others joined.
pub proof fn lemma_joined_from_front(items: Seq<Seq<char>>, separator: char)
    requires
        items.len() >= 2,
    ensures
        joined(items, separator) == items[0].push(separator) + joined(items.skip(1), separator),
    decreases items.len(),
{
    let front = items.drop_last();
    let rest = items.skip(1);
    assert(rest.last() == items.last());
    if items.len() == 2 {
        assert(joined(front, separator) == items[0]);
        assert(joined(rest, separator) == items[1]);
    } else {
        lemma_joined_from_front(front, separator);
        assert(front.skip(1) == rest.drop_last());
    }
    assert(joined(items, separator) == items[0].push(separator) + joined(rest, separator));
}

}
