use vstd::prelude::*;

use crate::backend::json::{keeps, names_guild, names_user, same_guild, same_user, selected, RowView};
use crate::parser::grammar::spec_query;
use crate::parser::laws::lemma_no_clause_is_blank;
use crate::parser::parser::QueryView;
use crate::parser::scan::is_space;

verus! {

/// A query text without any clause selects every row: for a text of whitespace alone,
/// the empty text too, the rows selected are the rows given, in their order.
pub proof fn lemma_no_clause_selects_all(text: Seq<char>, rows: Seq<RowView>)
    requires
        forall|i: int| 0 <= i < text.len() ==> is_space(#[trigger] text[i]),
    ensures
        spec_query(text) is Ok,
        selected(spec_query(text)->Ok_0, rows) == rows,
{
    lemma_no_clause_is_blank(text);
}

/// A query whose guilds and authors stand in no row selects nothing: where the query
/// holds a value, and no from value names the author of any row, and no guild value
/// names the guild of any row, no row is selected.
pub proof fn lemma_unknown_selects_nothing(query: QueryView, rows: Seq<RowView>)
    requires
        !query.is_blank(),
        forall|i: int, j: int|
            0 <= i < rows.len() && 0 <= j < query.from.len() ==> !same_user(
                #[trigger] rows[i].author,
                #[trigger] query.from[j],
            ),
        forall|i: int, j: int|
            0 <= i < rows.len() && 0 <= j < query.guild.len() ==> !same_guild(
                #[trigger] rows[i].guild,
                #[trigger] query.guild[j],
            ),
    ensures
        selected(query, rows) == Seq::<RowView>::empty(),
{
    let keep = |row: RowView| keeps(query, row);
    assert forall|i: int| 0 <= i < rows.len() implies !keep(#[trigger] rows[i]) by {
        let row = rows[i];
        if names_user(query.from, row.author) {
            let j = choose|j: int|
                0 <= j < query.from.len() && same_user(row.author, #[trigger] query.from[j]);
            assert(!same_user(rows[i].author, query.from[j]));
        }
        if names_guild(query.guild, row.guild) {
            let j = choose|j: int|
                0 <= j < query.guild.len() && same_guild(row.guild, #[trigger] query.guild[j]);
            assert(!same_guild(rows[i].guild, query.guild[j]));
        }
    }
    assert(rows.all(|row: RowView| !keep(row)));
    rows.lemma_all_neg_filter_empty(keep);
    assert(rows.filter(keep) =~= Seq::<RowView>::empty());
}

/// A row is selected as often as it is given, or not at all: under a query that holds
/// a value, a row that the query keeps stands among the selected rows as many times as
/// among the rows given, whether one of the from values, one of the guild values or
/// both name it, and a row that the query does not keep stands there no time.
pub proof fn lemma_selected_count(query: QueryView, rows: Seq<RowView>, row: RowView)
    requires
        !query.is_blank(),
    ensures
        selected(query, rows).to_multiset().count(row) == (if keeps(query, row) {
            rows.to_multiset().count(row)
        } else {
            0
        }),
    decreases rows.len(),
{
    broadcast use vstd::multiset::group_multiset_axioms;

    let keep = |r: RowView| keeps(query, r);
    if rows.len() == 0 {
        assert(rows.filter(keep).len() <= rows.len()) by {
            rows.lemma_filter_len(keep);
        }
        assert(rows.filter(keep) =~= rows);
        rows.to_multiset_ensures();
        assert(rows.to_multiset().len() == 0);
    } else {
        let init = rows.drop_last();
        let last = rows.last();
        lemma_selected_count(query, init, row);
        assert(rows =~= init.push(last));
        init.lemma_filter_push(last, keep);
        vstd::seq_lib::to_multiset_build(init, last);
        if keep(last) {
            vstd::seq_lib::to_multiset_build(init.filter(keep), last);
        }
    }
}

/// A row that both kinds of clause name is selected once: where a row stands once
/// among the rows given, and one of the from values names its author, and one of the
/// guild values names its guild, it stands once among the selected rows.
pub proof fn lemma_named_twice_selected_once(query: QueryView, rows: Seq<RowView>, row: RowView)
    requires
        names_user(query.from, row.author),
        names_guild(query.guild, row.guild),
        rows.to_multiset().count(row) == 1,
    ensures
        selected(query, rows).to_multiset().count(row) == 1,
{
    lemma_selected_count(query, rows, row);
}

/// Selecting keeps the order of the rows: what is selected from two sequences of rows,
/// one behind the other, is what is selected from the first and then what is selected
/// from the second.
pub proof fn lemma_selected_in_order(query: QueryView, first: Seq<RowView>, second: Seq<RowView>)
    ensures
        selected(query, first + second) == selected(query, first) + selected(query, second),
{
    Seq::filter_distributes_over_add(first, second, |row: RowView| keeps(query, row));
}

/// Of one row, a query that holds a value selects the row if it keeps it, and nothing
/// if it does not.
pub proof fn lemma_selected_one(query: QueryView, row: RowView)
    requires
        !query.is_blank(),
    ensures
        selected(query, seq![row]) == (if keeps(query, row) {
            seq![row]
        } else {
            Seq::<RowView>::empty()
        }),
{
    let keep = |r: RowView| keeps(query, r);
    let none = Seq::<RowView>::empty();
    none.lemma_filter_len(keep);
    assert(none.filter(keep) =~= none);
    none.lemma_filter_push(row, keep);
    assert(none.push(row) =~= seq![row]);
}

} // verus!
