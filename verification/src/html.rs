//! Fragments of pages: fixed text with values set in between.
//!
//! A template is a row of pieces of fixed text; between each piece and the
//! next there is a gap that takes a value. The values are set in as they
//! are: who fills a template sees to it that they may stand in a page.

use vstd::prelude::*;

verus! {

/// The text of a template whose gaps are filled: the pieces in their
/// order, with the values in their order between them. Where there are
/// fewer values than gaps, the text ends with the piece before the first
/// gap that no value is left for; values beyond the last gap are left out.
pub open spec fn filled(pieces: Seq<&'static str>, values: Seq<Seq<char>>) -> Seq<char>
    decreases pieces.len(),
{
    if pieces.len() == 0 {
        Seq::empty()
    } else if pieces.len() == 1 || values.len() == 0 {
        pieces[0]@
    } else {
        pieces[0]@ + values[0] + filled(pieces.drop_first(), values.drop_first())
    }
}

/// What a row of texts says.
pub open spec fn texts(values: Seq<&str>) -> Seq<Seq<char>> {
    Seq::new(values.len(), |i: int| values[i]@)
}

/// The mark that a page carries for a yes or a no.
pub open spec fn flag_text(yes: bool) -> Seq<char> {
    if yes {
        "true"@
    } else {
        "false"@
    }
}

/// The mark that a page carries for a yes or a no.
pub fn flag(yes: bool) -> (mark: &'static str)
    ensures
        mark@ == flag_text(yes),
{
    if yes {
        "true"
    } else {
        "false"
    }
}

proof fn lemma_filled_step(pieces: Seq<&'static str>, values: Seq<Seq<char>>, i: int)
    requires
        0 <= i < pieces.len(),
        i <= values.len(),
    ensures
        i + 1 < pieces.len() && i < values.len() ==> filled(pieces.skip(i), values.skip(i))
            == pieces[i]@ + values[i] + filled(pieces.skip(i + 1), values.skip(i + 1)),
        !(i + 1 < pieces.len() && i < values.len()) ==> filled(pieces.skip(i), values.skip(i))
            == pieces[i]@,
{
    let p = pieces.skip(i);
    let v = values.skip(i);
    assert(p[0] == pieces[i]);
    if i + 1 < pieces.len() && i < values.len() {
        assert(v[0] == values[i]);
        assert(p.drop_first() =~= pieces.skip(i + 1));
        assert(v.drop_first() =~= values.skip(i + 1));
    }
}

/// Fills the gaps of a template with the values, in their order.
pub fn fill(pieces: &[&'static str], values: &[&str]) -> (text: String)
    ensures
        text@ == filled(pieces@, texts(values@)),
{
    let ghost wanted = filled(pieces@, texts(values@));
    let mut text = String::new();
    if pieces.len() == 0 {
        return text;
    }
    let mut i: usize = 0;
    proof {
        assert(pieces@.skip(0) =~= pieces@);
        assert(texts(values@).skip(0) =~= texts(values@));
    }
    while i + 1 < pieces.len() && i < values.len()
        invariant
            i < pieces.len(),
            i <= values.len(),
            wanted == filled(pieces@, texts(values@)),
            text@ + filled(pieces@.skip(i as int), texts(values@).skip(i as int)) == wanted,
        decreases pieces.len() - i,
    {
        proof {
            lemma_filled_step(pieces@, texts(values@), i as int);
        }
        let ghost before = text@;
        text.append(pieces[i]);
        text.append(values[i]);
        proof {
            let rest = filled(pieces@.skip(i + 1), texts(values@).skip(i + 1));
            assert(text@ + rest =~= before + (pieces@[i as int]@ + values@[i as int]@ + rest));
        }
        i += 1;
    }
    proof {
        lemma_filled_step(pieces@, texts(values@), i as int);
    }
    text.append(pieces[i]);
    text
}

} // verus!
