//! The identity that the server takes from the name of its host.
use vstd::prelude::*;

use crate::text::{is_white_space, optional_text, trimmed};
use crate::text::{lemma_trimmed_already, lemma_trimmed_is_what_is_inside};

verus! {

/// Whether a character may stand in an identity.
pub open spec fn is_id_character(c: char) -> bool {
    ||| '0' <= c <= '9'
    ||| 'A' <= c <= 'Z'
    ||| 'a' <= c <= 'z'
    ||| c == '-'
    ||| c == '_'
    ||| c == '.'
}

/// A text with a hyphen for each space.
pub open spec fn hyphenated(text: Seq<char>) -> Seq<char> {
    text.map_values(
        |c: char|
            if c == ' ' {
                '-'
            } else {
                c
            },
    )
}

/// The characters of a host name that make its identity: those that may stand in one, with
/// a hyphen for each space that is not at its beginning or end.
pub open spec fn id_text(hostname: Seq<char>) -> Seq<char> {
    hyphenated(trimmed(hostname)).filter(|c: char| is_id_character(c))
}

/// The identity that a host name makes, unless nothing is left of it.
pub open spec fn id_of_hostname(hostname: Seq<char>) -> Option<Seq<char>> {
    if id_text(hostname).len() > 0 {
        Some(id_text(hostname))
    } else {
        None
    }
}

fn may_stand_in_id(c: char) -> (allowed: bool)
    ensures
        allowed == is_id_character(c),
{
    ('0' <= c && c <= '9') || ('A' <= c && c <= 'Z') || ('a' <= c && c <= 'z') || c == '-' || c
        == '_' || c == '.'
}

/// The identity that a host name makes, unless nothing is left of it.
pub fn sanitized_hostname(hostname: &str) -> (id: Option<String>)
    ensures
        optional_text(id) == id_of_hostname(hostname@),
        id_text(hostname@).len() > 0 ==> id is Some && id->0@ == id_text(hostname@),
        id_text(hostname@).len() == 0 ==> id is None,
{
    let inner: &str = hostname.trim();
    let ghost whole = hyphenated(inner@);
    let ghost allowed = |c: char| is_id_character(c);
    let mut id: String = String::new();
    proof {
        reveal(Seq::filter);
    }
    assert(id@ == whole.take(0).filter(allowed));
    for c in it: inner.chars()
        invariant
            it.seq() == inner@,
            whole == hyphenated(inner@),
            allowed == (|c: char| is_id_character(c)),
            id@ == whole.take(it.index()).filter(allowed),
    {
        assert(whole.take(it.index() + 1).drop_last() == whole.take(it.index()));
        proof {
            reveal(Seq::filter);
        }
        let written: char = if c == ' ' {
            '-'
        } else {
            c
        };
        if may_stand_in_id(written) {
            id.push(written);
        }
        assert(id@ == whole.take(it.index() + 1).filter(allowed));
    }
    assert(whole.take(whole.len() as int) == whole);
    if id.as_str().is_empty() {
        None
    } else {
        Some(id)
    }
}

/// A change of the server's identity.
pub enum IdentityAction {
    /// The server's key no longer counts as confirmed.
    UnconfirmKey,
    /// Take this identity.
    SetId(String),
    /// Take a random identity.
    TakeRandomId,
}

/// The model of `IdentityAction`.
pub enum IdentityActionView {
    UnconfirmKey,
    SetId(Seq<char>),
    TakeRandomId,
}

impl View for IdentityAction {
    type V = IdentityActionView;

    open spec fn view(&self) -> IdentityActionView {
        match self {
            IdentityAction::UnconfirmKey => IdentityActionView::UnconfirmKey,
            IdentityAction::SetId(id) => IdentityActionView::SetId(id@),
            IdentityAction::TakeRandomId => IdentityActionView::TakeRandomId,
        }
    }
}

/// The changes that give the server its identity, in this order: the key is no longer
/// confirmed, then the identity that the host's name makes is taken, or else a random one.
pub open spec fn identity_changes(hostname: Seq<char>) -> Seq<IdentityActionView> {
    seq![
        IdentityActionView::UnconfirmKey,
        match id_of_hostname(hostname) {
            Some(id) => IdentityActionView::SetId(id),
            None => IdentityActionView::TakeRandomId,
        },
    ]
}

/// The changes that give the server its identity, in this order.
pub fn set_hostname_id(hostname: &str) -> (changes: Vec<IdentityAction>)
    ensures
        changes@.map_values(|change: IdentityAction| change@) == identity_changes(hostname@),
        changes@.len() == 2,
        changes@[0] is UnconfirmKey,
        id_text(hostname@).len() > 0 ==> changes@[1] is SetId && changes@[1]->SetId_0@ == id_text(
            hostname@,
        ),
        id_text(hostname@).len() == 0 ==> changes@[1] is TakeRandomId,
{
    let mut changes: Vec<IdentityAction> = Vec::new();
    changes.push(IdentityAction::UnconfirmKey);
    match sanitized_hostname(hostname) {
        Some(id) => changes.push(IdentityAction::SetId(id)),
        None => changes.push(IdentityAction::TakeRandomId),
    }
    assert(changes@.map_values(|change: IdentityAction| change@) == identity_changes(hostname@));
    changes
}

proof fn lemma_filter_keeps_only(text: Seq<char>, allowed: spec_fn(char) -> bool)
    ensures
        forall|i: int| 0 <= i < text.filter(allowed).len() ==> allowed(#[trigger] text.filter(allowed)[i]),
    decreases text.len(),
{
    reveal(Seq::filter);
    if text.len() > 0 {
        lemma_filter_keeps_only(text.drop_last(), allowed);
    }
}

proof fn lemma_filter_keeps_all(text: Seq<char>, allowed: spec_fn(char) -> bool)
    requires
        forall|i: int| 0 <= i < text.len() ==> allowed(#[trigger] text[i]),
    ensures
        text.filter(allowed) == text,
    decreases text.len(),
{
    reveal(Seq::filter);
    if text.len() > 0 {
        let front = text.drop_last();
        assert(forall|i: int| 0 <= i < front.len() ==> front[i] == text[i]);
        lemma_filter_keeps_all(front, allowed);
        assert(front.push(text.last()) == text);
    }
}

/// An identity holds only letters and digits of ASCII, hyphens, underscores and dots.
pub proof fn lemma_id_characters(hostname: Seq<char>, at: int)
    requires
        0 <= at < id_text(hostname).len(),
    ensures
        is_id_character(id_text(hostname)[at]),
{
    lemma_filter_keeps_only(hyphenated(trimmed(hostname)), |c: char| is_id_character(c));
}

/// A host name that is fit to be an identity is the identity that it makes.
pub proof fn lemma_fit_hostname_is_kept(hostname: Seq<char>)
    requires
        hostname.len() > 0,
        forall|i: int| 0 <= i < hostname.len() ==> is_id_character(#[trigger] hostname[i]),
    ensures
        id_of_hostname(hostname) == Some(hostname),
{
    assert(is_id_character(hostname[0]));
    assert(is_id_character(hostname[hostname.len() - 1]));
    lemma_trimmed_already(hostname);
    assert(hyphenated(hostname) == hostname) by {
        assert forall|i: int| 0 <= i < hostname.len() implies hyphenated(hostname)[i]
            == hostname[i] by {
            assert(is_id_character(hostname[i]));
        }
    }
    lemma_filter_keeps_all(hostname, |c: char| is_id_character(c));
}

/// An identity makes itself: to take the identity of an identity changes nothing.
pub proof fn lemma_id_is_stable(hostname: Seq<char>)
    requires
        id_of_hostname(hostname) is Some,
    ensures
        id_of_hostname(id_of_hostname(hostname)->0) == id_of_hostname(hostname),
{
    let id = id_text(hostname);
    assert forall|i: int| 0 <= i < id.len() implies is_id_character(#[trigger] id[i]) by {
        lemma_id_characters(hostname, i);
    }
    lemma_fit_hostname_is_kept(id);
}

proof fn lemma_hyphenated_parts(front: Seq<char>, back: Seq<char>)
    ensures
        ({
            let allowed = |c: char| is_id_character(c);
            hyphenated(front + back).filter(allowed) == hyphenated(front).filter(allowed)
                + hyphenated(back).filter(allowed)
        }),
{
    let allowed = |c: char| is_id_character(c);
    assert(hyphenated(front + back) == hyphenated(front) + hyphenated(back));
    Seq::filter_distributes_over_add(hyphenated(front), hyphenated(back), allowed);
}

proof fn lemma_hyphens(between: Seq<char>)
    requires
        forall|i: int| 0 <= i < between.len() ==> is_white_space(#[trigger] between[i]),
    ensures
        hyphenated(between).filter(|c: char| is_id_character(c)) == Seq::new(
            between.filter(|c: char| c == ' ').len(),
            |i: int| '-',
        ),
    decreases between.len(),
{
    reveal(Seq::filter);
    let allowed = |c: char| is_id_character(c);
    let blank = |c: char| c == ' ';
    let hyphens = Seq::new(between.filter(blank).len(), |i: int| '-');
    if between.len() > 0 {
        let front = between.drop_last();
        assert(forall|i: int| 0 <= i < front.len() ==> front[i] == between[i]);
        lemma_hyphens(front);
        assert(hyphenated(between).drop_last() == hyphenated(front));
        assert(is_white_space(between[between.len() - 1]));
        let earlier = Seq::new(front.filter(blank).len(), |i: int| '-');
        if between.last() == ' ' {
            assert(between.filter(blank) == front.filter(blank).push(' '));
            assert(hyphens == earlier.push('-'));
        } else {
            assert(between.filter(blank) == front.filter(blank));
            assert(hyphens == earlier);
        }
        assert(hyphenated(between).filter(allowed) == hyphens);
    } else {
        assert(hyphenated(between).filter(allowed) == hyphens);
    }
}

/// Two words with any white space between them make the identities of the two, with a hyphen
/// between them for each space there, and nothing for any other white space.
pub proof fn lemma_id_of_words(first: Seq<char>, between: Seq<char>, second: Seq<char>)
    requires
        first.len() > 0 && !is_white_space(first.first()) && !is_white_space(first.last()),
        second.len() > 0 && !is_white_space(second.first()) && !is_white_space(second.last()),
        forall|i: int| 0 <= i < between.len() ==> is_white_space(#[trigger] between[i]),
    ensures
        id_text(first + between + second) == id_text(first) + Seq::new(
            between.filter(|c: char| c == ' ').len(),
            |i: int| '-',
        ) + id_text(second),
{
    lemma_trimmed_already(first);
    lemma_trimmed_already(second);
    lemma_trimmed_already(first + between + second);
    lemma_hyphenated_parts(first, between);
    lemma_hyphenated_parts(first + between, second);
    lemma_hyphens(between);
}

/// A single space between two words gives a single hyphen between their identities, whatever
/// the words are; with nothing between them there is nothing between their identities.
pub proof fn lemma_space_makes_hyphen(first: Seq<char>, second: Seq<char>)
    requires
        first.len() > 0 && !is_white_space(first.first()) && !is_white_space(first.last()),
        second.len() > 0 && !is_white_space(second.first()) && !is_white_space(second.last()),
    ensures
        id_text(first + seq![' '] + second) == id_text(first) + seq!['-'] + id_text(second),
        id_text(first + second) == id_text(first) + id_text(second),
{
    reveal_with_fuel(Seq::filter, 2);
    lemma_id_of_words(first, seq![' '], second);
    let blank = |c: char| c == ' ';
    assert(seq![' '].drop_last() == Seq::<char>::empty());
    assert(seq![' '].filter(blank).len() == 1);
    assert(Seq::new(1, |i: int| '-') == seq!['-']);
    lemma_trimmed_already(first);
    lemma_trimmed_already(second);
    lemma_trimmed_already(first + second);
    lemma_hyphenated_parts(first, second);
}

/// Of a single character that is no white space, the identity keeps a letter or a digit of
/// ASCII, a hyphen, an underscore or a dot, and nothing of any other.
pub proof fn lemma_id_of_character(c: char)
    requires
        !is_white_space(c),
    ensures
        id_text(seq![c]) == if ('0' <= c && c <= '9') || ('A' <= c && c <= 'Z') || ('a' <= c && c
            <= 'z') || c == '-' || c == '_' || c == '.' {
            seq![c]
        } else {
            Seq::empty()
        },
{
    reveal_with_fuel(Seq::filter, 2);
    lemma_trimmed_already(seq![c]);
    assert(hyphenated(seq![c]) == seq![c]);
    assert(seq![c].drop_last() == Seq::<char>::empty());
    assert(seq![c].filter(|c: char| is_id_character(c)) == if is_id_character(c) {
        seq![c]
    } else {
        Seq::empty()
    });
}

/// White space around a host name makes no difference, and white space alone makes nothing.
pub proof fn lemma_id_ignores_white_space_around(
    before: Seq<char>,
    name: Seq<char>,
    after: Seq<char>,
)
    requires
        forall|i: int| 0 <= i < before.len() ==> is_white_space(#[trigger] before[i]),
        forall|i: int| 0 <= i < after.len() ==> is_white_space(#[trigger] after[i]),
        name.len() > 0 ==> !is_white_space(name.first()) && !is_white_space(name.last()),
    ensures
        id_text(before + name + after) == id_text(name),
        name.len() == 0 ==> id_text(before + name + after).len() == 0,
{
    lemma_trimmed_is_what_is_inside(before, name, after);
    lemma_trimmed_already(name);
    reveal(Seq::filter);
}

/// A host name of letters and digits of ASCII, hyphens, underscores, dots and spaces, with no
/// space at its beginning or end, makes the identity with a hyphen at the place of each space
/// and its own character at each other.
pub proof fn lemma_id_place_by_place(name: Seq<char>)
    requires
        name.len() > 0 && name.first() != ' ' && name.last() != ' ',
        forall|i: int|
            0 <= i < name.len() ==> {
                let c = #[trigger] name[i];
                c == ' ' || ('0' <= c && c <= '9') || ('A' <= c && c <= 'Z') || ('a' <= c && c
                    <= 'z') || c == '-' || c == '_' || c == '.'
            },
    ensures
        id_text(name).len() == name.len(),
        forall|i: int|
            0 <= i < name.len() ==> #[trigger] id_text(name)[i] == if name[i] == ' ' {
                '-'
            } else {
                name[i]
            },
{
    assert(!is_white_space(name[0]) && !is_white_space(name[name.len() - 1]));
    lemma_trimmed_already(name);
    let written = hyphenated(name);
    assert forall|i: int| 0 <= i < written.len() implies is_id_character(#[trigger] written[i]) by {
        assert(name[i] == ' ' || name[i] == written[i]);
    }
    lemma_filter_keeps_all(written, |c: char| is_id_character(c));
}

}
