//! Identifiers that may be qualified by a prefix and a method, as in
//! `did:sov:NcYxiDXkpYi6ov5FcYDi1e`.
use vstd::prelude::*;

verus! {

/// A prefix or a method: one or more lower case letters and digits.
pub open spec fn is_label(text: Seq<char>) -> bool {
    &&& text.len() > 0
    &&& forall|i: int|
        0 <= i < text.len() ==> ('a' <= #[trigger] text[i] <= 'z' || '0' <= text[i] <= '9')
}

/// `id` reads `prefix:method:rest`, where prefix and method are labels and the rest is a
/// single line.
pub open spec fn qualified_as(
    id: Seq<char>,
    prefix: Seq<char>,
    method: Seq<char>,
    rest: Seq<char>,
) -> bool {
    &&& is_label(prefix)
    &&& is_label(method)
    &&& !rest.contains('\n')
    &&& id == prefix + seq![':'] + method + seq![':'] + rest
}

/// The method by which `id` is qualified under `prefix`, where it is qualified.
pub open spec fn method_of(prefix: Seq<char>, id: Seq<char>) -> Option<Seq<char>> {
    if exists|method: Seq<char>, rest: Seq<char>| qualified_as(id, prefix, method, rest) {
        let (method, rest) = choose|method: Seq<char>, rest: Seq<char>|
            qualified_as(id, prefix, method, rest);
        Some(method)
    } else {
        None
    }
}

/// `entity` qualified by a prefix and a method, or left alone where there is no method.
pub open spec fn qualify(
    prefix: Seq<char>,
    method: Option<Seq<char>>,
    entity: Seq<char>,
) -> Seq<char> {
    match method {
        Some(method) => prefix + seq![':'] + method + seq![':'] + entity,
        None => entity,
    }
}

/// The pieces of a text between its separators.
pub open spec fn pieces(text: Seq<char>, separator: char) -> Seq<Seq<char>>
    decreases text.len(),
{
    if text.len() == 0 {
        seq![seq![]]
    } else {
        let before = pieces(text.drop_last(), separator);
        if text.last() == separator {
            before.push(seq![])
        } else {
            before.drop_last().push(before.last().push(text.last()))
        }
    }
}

/// The parts of an identifier: the pieces between its colons, but for an empty one at the
/// end.
pub open spec fn parts(id: Seq<char>) -> Seq<Seq<char>> {
    let between_colons = pieces(id, ':');
    if between_colons.last().len() == 0 {
        between_colons.drop_last()
    } else {
        between_colons
    }
}

/// The text of an optional string slice.
pub open spec fn text_of(text: Option<&str>) -> Option<Seq<char>> {
    match text {
        Some(text) => Some(text@),
        None => None,
    }
}

/// `qualifiable::split` parts a qualified identifier into its method and what follows it;
/// one that is not qualified under the prefix has no method and comes back whole.
pub assume_specification<'a>[ indy_utils::qualifiable::split ](prefix: &str, val: &'a str) -> (res:
    (Option<&'a str>, &'a str))
    ensures
        res.0 matches Some(method) ==> qualified_as(val@, prefix@, method@, res.1@),
        res.0 is None ==> res.1@ == val@,
        res.0 is None ==> forall|method: Seq<char>, rest: Seq<char>|
            !#[trigger] qualified_as(val@, prefix@, method, rest),
;

/// An identifier is qualified by one method only, and in one way.
pub proof fn lemma_method_is_unique(
    prefix: Seq<char>,
    id: Seq<char>,
    method: Seq<char>,
    rest: Seq<char>,
)
    requires
        qualified_as(id, prefix, method, rest),
    ensures
        method_of(prefix, id) == Some(method),
        forall|m: Seq<char>, r: Seq<char>| #[trigger]
            qualified_as(id, prefix, m, r) ==> m == method && r == rest,
{
    assert forall|m: Seq<char>, r: Seq<char>| #[trigger] qualified_as(id, prefix, m, r) implies m
        == method && r == rest by {
        let start: int = prefix.len() as int + 1;
        assert(id[start + method.len()] == ':');
        assert(id[start + m.len()] == ':');
        if m.len() < method.len() {
            assert(id[start + m.len()] == method[m.len() as int]);
        } else if method.len() < m.len() {
            assert(id[start + method.len()] == m[method.len() as int]);
        }
        assert forall|i: int| 0 <= i < m.len() implies m[i] == method[i] by {
            assert(id[start + i] == m[i]);
            assert(id[start + i] == method[i]);
        }
        assert(m =~= method);
        let tail: int = start + m.len() + 1;
        assert(r =~= id.subrange(tail, id.len() as int));
        assert(rest =~= id.subrange(tail, id.len() as int));
    }
}

/// A piece without colons after a colon is the last piece.
pub proof fn lemma_last_piece(text: Seq<char>, piece: Seq<char>)
    requires
        !piece.contains(':'),
    ensures
        pieces(text + seq![':'] + piece, ':') == pieces(text, ':').push(piece),
    decreases piece.len(),
{
    let whole = text + seq![':'] + piece;
    if piece.len() == 0 {
        assert(whole.drop_last() =~= text);
        assert(piece =~= seq![]);
    } else {
        let shorter = piece.drop_last();
        assert(!shorter.contains(':')) by {
            if shorter.contains(':') {
                let i = choose|i: int| 0 <= i < shorter.len() && shorter[i] == ':';
                assert(piece[i] == ':');
            }
        }
        lemma_last_piece(text, shorter);
        assert(whole.drop_last() =~= text + seq![':'] + shorter);
        assert(whole.last() == piece.last());
        assert(piece.contains(piece.last()));
        assert(shorter.push(piece.last()) =~= piece);
        assert(pieces(whole, ':') =~= pieces(text, ':').push(piece));
    }
}

/// A text without colons is its only piece.
pub proof fn lemma_only_piece(text: Seq<char>)
    requires
        !text.contains(':'),
    ensures
        pieces(text, ':') == seq![text],
    decreases text.len(),
{
    if text.len() == 0 {
        assert(text =~= seq![]);
    } else {
        let shorter = text.drop_last();
        assert(!shorter.contains(':')) by {
            if shorter.contains(':') {
                let i = choose|i: int| 0 <= i < shorter.len() && shorter[i] == ':';
                assert(text[i] == ':');
            }
        }
        lemma_only_piece(shorter);
        assert(text.contains(text.last()));
        assert(shorter.push(text.last()) =~= text);
        assert(pieces(text, ':') =~= seq![text]);
    }
}

/// The method by which `id` is qualified under `prefix`.
pub fn get_method<'a>(prefix: &str, id: &'a str) -> (res: Option<&'a str>)
    ensures
        text_of(res) == method_of(prefix@, id@),
{
    let (method, rest) = indy_utils::qualifiable::split(prefix, id);
    proof {
        if let Some(method) = method {
            lemma_method_is_unique(prefix@, id@, method@, rest@);
        }
    }
    method
}

} // verus!
