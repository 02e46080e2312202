//! A flat JSON array of strings, read as a list of its items.

use crate::text::{
    chars_of, first_index, lemma_first_index_is, slice_chars, split, split_chars,
    string_from_chars, string_texts, texts,
};
use vstd::prelude::*;

verus! {

/// `s` without its double quotes.
pub open spec fn unquoted(s: Seq<char>) -> Seq<char> {
    s.filter(|c: char| c != '"')
}

/// The items of a flat JSON array literal: the text after its first
/// character, without double quotes, up to the first `]`, cut at every `,`.
/// An array without items gives one empty item; arrays inside the array are
/// not understood.
pub open spec fn json_arr_items(arr: Seq<char>) -> Seq<Seq<char>> {
    let inner = unquoted(
        if arr.len() > 0 {
            arr.skip(1)
        } else {
            arr
        },
    );
    split(inner.take(first_index(inner, ']')), ',')
}

/// Cutting at the first `]` and dropping the quotes can be done in either order.
proof fn lemma_unquoted_until_bracket(s: Seq<char>, k: int)
    requires
        0 <= k <= s.len(),
        forall|j: int| 0 <= j < k ==> s[j] != ']',
        k < s.len() ==> s[k] == ']',
    ensures
        unquoted(s).take(first_index(unquoted(s), ']')) == unquoted(s.take(k)),
{
    let pred = |c: char| c != '"';
    let a = s.take(k);
    let b = s.skip(k);
    assert(s == a + b);
    Seq::filter_distributes_over_add(a, b, pred);
    let fa = a.filter(pred);
    let fb = b.filter(pred);
    assert forall|j: int| 0 <= j < fa.len() implies fa[j] != ']' by {
        a.lemma_filter_contains_rev(pred, fa[j]);
        let i = choose|i: int| 0 <= i < a.len() && a[i] == fa[j];
        assert(a[i] == s[i]);
    }
    if k < s.len() {
        let first = seq![s[k]];
        let rest = s.skip(k + 1);
        assert(b == first + rest);
        Seq::filter_distributes_over_add(first, rest, pred);
        assert(first.filter(pred) == first) by {
            reveal_with_fuel(Seq::filter, 2);
            assert(first.drop_last().len() == 0);
        }
        assert(fb[0] == ']');
    } else {
        assert(fb.len() == 0) by {
            reveal_with_fuel(Seq::filter, 1);
        }
    }
    lemma_first_index_is(fa + fb, ']', fa.len() as int);
    assert((fa + fb).take(fa.len() as int) == fa);
}

/// Converts a flat JSON array literal of strings into the list of its items.
pub fn json_arr_to_vec(arr: &str) -> (items: Vec<String>)
    ensures
        string_texts(items@) == json_arr_items(arr@),
{
    let chars = chars_of(arr);
    let mut inner: Vec<char> = Vec::new();
    let mut i: usize = 1;
    let ghost body = if chars@.len() > 0 {
        chars@.skip(1)
    } else {
        chars@
    };
    proof {
        reveal_with_fuel(Seq::filter, 1);
        assert(unquoted(body.take(0)) == Seq::<char>::empty());
    }
    while i < chars.len() && chars[i] != ']'
        invariant
            1 <= i,
            i <= chars.len() || (chars.len() == 0 && i == 1),
            chars@.len() > 0 ==> body == chars@.skip(1),
            chars@.len() == 0 ==> body == chars@,
            inner@ == unquoted(body.take(i - 1)),
            forall|j: int| 0 <= j < i - 1 ==> body[j] != ']',
        decreases chars.len() - i,
    {
        proof {
            reveal_with_fuel(Seq::filter, 1);
            assert(body.take(i as int).drop_last() == body.take(i - 1));
            assert(body.take(i as int).last() == chars@[i as int]);
        }
        if chars[i] != '"' {
            inner.push(chars[i]);
        }
        i += 1;
    }
    proof {
        lemma_unquoted_until_bracket(body, i - 1);
    }
    let pieces = split_chars(&inner, ',');
    let mut items: Vec<String> = Vec::new();
    let mut n: usize = 0;
    while n < pieces.len()
        invariant
            n <= pieces.len(),
            string_texts(items@) == texts(pieces@).take(n as int),
        decreases pieces.len() - n,
    {
        let piece = &pieces[n];
        let copy = slice_chars(piece, 0, piece.len());
        proof {
            assert(piece@.subrange(0, piece@.len() as int) == piece@);
        }
        let ghost before = string_texts(items@);
        let item = string_from_chars(copy);
        items.push(item);
        proof {
            assert(string_texts(items@) == before.push(item@));
            assert(texts(pieces@).take(n + 1) == texts(pieces@).take(n as int).push(piece@));
        }
        n += 1;
    }
    proof {
        assert(texts(pieces@).take(pieces.len() as int) == texts(pieces@));
    }
    items
}

} // verus!
