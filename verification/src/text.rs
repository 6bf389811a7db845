//! Small operations on texts that the grammar and the encoder share.

use vstd::prelude::*;
use vstd::string::*;

verus! {

/// The character that separates the fields of a token.
pub open spec fn space() -> Seq<char> {
    seq![' ']
}

/// No character of `s` is a space.
pub open spec fn no_space(s: Seq<char>) -> bool {
    forall|i: int| 0 <= i < s.len() ==> s[i] != ' '
}

/// The items written one after the other with a single space between each
/// two; the empty text for no items.
pub open spec fn join(items: Seq<Seq<char>>) -> Seq<char>
    decreases items.len(),
{
    if items.len() == 0 {
        Seq::empty()
    } else if items.len() == 1 {
        items[0]
    } else {
        join(items.drop_last()) + space() + items.last()
    }
}

/// The items written one after the other, each behind a space.
pub open spec fn spaced(items: Seq<Seq<char>>) -> Seq<char>
    decreases items.len(),
{
    if items.len() == 0 {
        Seq::empty()
    } else {
        spaced(items.drop_last()) + space() + items.last()
    }
}

/// One or more joined items behind a space are the same items, each behind a
/// space.
pub proof fn lemma_join_spaced(items: Seq<Seq<char>>)
    requires
        items.len() >= 1,
    ensures
        space() + join(items) == spaced(items),
    decreases items.len(),
{
    if items.len() == 1 {
        assert(items.drop_last().len() == 0);
        assert(spaced(items.drop_last()) =~= Seq::<char>::empty());
        assert(space() + join(items) =~= spaced(items));
    } else {
        lemma_join_spaced(items.drop_last());
        assert(space() + join(items) =~= (space() + join(items.drop_last())) + space()
            + items.last());
    }
}

/// The characters of a text, in order.
pub fn to_chars(s: &str) -> (v: Vec<char>)
    ensures
        v@ == s@,
{
    let mut v: Vec<char> = Vec::new();
    for c in it: s.chars()
        invariant
            it.seq() == s@,
            v@ == it.seq().take(it.index() as int),
    {
        v.push(c);
        assert(v@ =~= it.seq().take(it.index() + 1));
    }
    assert(v@ =~= s@);
    v
}

/// Joins the items with single spaces.
pub fn join_items(items: &Vec<String>) -> (text: String)
    ensures
        text@ == join(items.deep_view()),
{
    let mut text = String::new();
    let mut i: usize = 0;
    while i < items.len()
        invariant
            i <= items.len(),
            text@ == join(items.deep_view().take(i as int)),
        decreases items.len() - i,
    {
        let ghost before = items.deep_view().take(i as int);
        let ghost after = items.deep_view().take(i + 1);
        proof {
            assert(after.drop_last() =~= before);
            assert(after.last() == items[i as int]@);
        }
        if i > 0 {
            text.append(" ");
            proof {
                reveal_strlit(" ");
                assert(" "@ =~= space());
            }
        } else {
            assert(text@ + items[i as int]@ =~= items[i as int]@);
        }
        text.append(items[i].as_str());
        i = i + 1;
    }
    assert(items.deep_view().take(i as int) =~= items.deep_view());
    text
}

} // verus!
