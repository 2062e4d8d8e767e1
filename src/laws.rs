//! Laws that relate insertion, selection and the table's contents.
use vstd::prelude::*;
use crate::statement::{insert_into, row_line, select_lines};
use crate::table::{Record, RowView, lemma_records_map_at, records_map, unique_keys};
use crate::text::{is_word, lemma_tokens_push_word, lemma_tokens_push_ws, tokens};

verus! {

/// The words `w` joined by single spaces.
pub open spec fn spaced(w: Seq<Seq<char>>) -> Seq<char>
    decreases w.len(),
{
    if w.len() <= 1 {
        if w.len() == 0 {
            seq![]
        } else {
            w[0]
        }
    } else {
        spaced(w.drop_last()) + " "@ + w.last()
    }
}

/// Words joined by single spaces split back into the same words.
pub proof fn lemma_tokens_of_spaced(w: Seq<Seq<char>>)
    requires
        forall|i: int| 0 <= i < w.len() ==> is_word(#[trigger] w[i]),
    ensures
        tokens(spaced(w)) == w,
    decreases w.len(),
{
    reveal_strlit(" ");
    if w.len() == 0 {
        assert(tokens(spaced(w)) =~= w);
    } else if w.len() == 1 {
        lemma_tokens_push_word(seq![], w[0]);
        assert(Seq::<char>::empty() + w[0] =~= w[0]);
        assert(tokens(spaced(w)) =~= w);
    } else {
        let w0 = w.drop_last();
        assert forall|i: int| 0 <= i < w0.len() implies is_word(#[trigger] w0[i]) by {
            assert(w0[i] == w[i]);
        }
        lemma_tokens_of_spaced(w0);
        let s = spaced(w0);
        assert(s + " "@ =~= s.push(' '));
        lemma_tokens_push_ws(s, ' ');
        assert(is_word(w[w.len() - 1]));
        lemma_tokens_push_word(s.push(' '), w.last());
        assert(w0.push(w.last()) =~= w);
    }
}

/// The line `<keyword> <id> <field1> <field2>`.
pub open spec fn insert_line(kw: Seq<char>, id: Seq<char>, a: Seq<char>, b: Seq<char>) -> Seq<char> {
    spaced(seq![kw, id, a, b])
}

/// After inserting `id` with fields `a` and `b`, a selection prints a line for
/// `id` that holds exactly `id`, `a` and `b`, and every line for `id` is that line.
pub proof fn insert_then_select(
    m: Map<Seq<char>, RowView>,
    kw: Seq<char>,
    id: Seq<char>,
    a: Seq<char>,
    b: Seq<char>,
    r: Seq<Record>,
)
    requires
        is_word(kw),
        is_word(id),
        is_word(a),
        is_word(b),
        unique_keys(r),
        records_map(r) == insert_into(m, tokens(insert_line(kw, id, a, b))),
    ensures
        exists|i: int| 0 <= i < r.len() && select_lines(r)[i] == row_line(id, (a, b)),
        forall|i: int|
            0 <= i < r.len() && (#[trigger] r[i]).0 == id ==> select_lines(r)[i] == row_line(id, (a, b)),
{
    let w = seq![kw, id, a, b];
    lemma_tokens_of_spaced(w);
    assert(records_map(r) == m.insert(id, (a, b)));
    assert(records_map(r).contains_key(id));
    let j = choose|j: int| 0 <= j < r.len() && r[j].0 == id;
    assert forall|i: int| 0 <= i < r.len() && (#[trigger] r[i]).0 == id implies select_lines(r)[i]
        == row_line(id, (a, b)) by {
        lemma_records_map_at(r, i);
    }
    assert(select_lines(r)[j] == row_line(id, (a, b)));
}

/// Inserting the same identifier twice keeps only the later fields: a
/// selection prints for `id` only the line with `c` and `d`.
pub proof fn reinsert_overwrites(
    m: Map<Seq<char>, RowView>,
    kw1: Seq<char>,
    kw2: Seq<char>,
    id: Seq<char>,
    a: Seq<char>,
    b: Seq<char>,
    c: Seq<char>,
    d: Seq<char>,
    r: Seq<Record>,
)
    requires
        is_word(kw1),
        is_word(kw2),
        is_word(id),
        is_word(a),
        is_word(b),
        is_word(c),
        is_word(d),
        unique_keys(r),
        records_map(r) == insert_into(
            insert_into(m, tokens(insert_line(kw1, id, a, b))),
            tokens(insert_line(kw2, id, c, d)),
        ),
    ensures
        records_map(r) == m.insert(id, (c, d)),
        exists|i: int| 0 <= i < r.len() && select_lines(r)[i] == row_line(id, (c, d)),
        forall|i: int|
            0 <= i < r.len() && (#[trigger] r[i]).0 == id ==> select_lines(r)[i] == row_line(id, (c, d)),
{
    lemma_tokens_of_spaced(seq![kw1, id, a, b]);
    lemma_tokens_of_spaced(seq![kw2, id, c, d]);
    assert(records_map(r) =~= m.insert(id, (c, d)));
    assert(records_map(r).contains_key(id));
    let j = choose|j: int| 0 <= j < r.len() && r[j].0 == id;
    assert forall|i: int| 0 <= i < r.len() && (#[trigger] r[i]).0 == id implies select_lines(r)[i]
        == row_line(id, (c, d)) by {
        lemma_records_map_at(r, i);
    }
    assert(select_lines(r)[j] == row_line(id, (c, d)));
}

/// An insertion with only two words after the keyword has too few tokens and
/// leaves the table as it was.
pub proof fn insert_with_two_arguments(m: Map<Seq<char>, RowView>, kw: Seq<char>, x: Seq<char>, y: Seq<char>)
    requires
        is_word(kw),
        is_word(x),
        is_word(y),
    ensures
        tokens(spaced(seq![kw, x, y])).len() < 4,
        insert_into(m, tokens(spaced(seq![kw, x, y]))) == m,
{
    lemma_tokens_of_spaced(seq![kw, x, y]);
}

/// Selecting from an empty table prints no record lines.
pub proof fn select_of_empty_table(r: Seq<Record>)
    requires
        records_map(r) == Map::<Seq<char>, RowView>::empty(),
    ensures
        select_lines(r) == Seq::<Seq<char>>::empty(),
{
    if r.len() > 0 {
        assert(records_map(r).contains_key(r[0].0));
    }
    assert(select_lines(r) =~= Seq::<Seq<char>>::empty());
}

} // verus!
