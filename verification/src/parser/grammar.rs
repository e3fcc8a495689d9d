use nom::error::ErrorKind;
use vstd::prelude::*;

use crate::parser::parser::{FilterView, QueryView, ValueView};
use crate::parser::scan::{
    digits, is_space, none_of, run_length, skip_spaces, spaces, spec_is_not, spec_keyword,
    spec_number, spec_symbol, spec_tag, Parsed, Scanned,
};

verus! {

/// The keyword that opens a guild clause, with its parenthesis.
pub open spec fn guild_word() -> Seq<char> {
    seq!['g', 'u', 'i', 'l', 'd', '(']
}

/// The keyword that opens a from clause, with its parenthesis.
pub open spec fn from_word() -> Seq<char> {
    seq!['f', 'r', 'o', 'm', '(']
}

/// What stands between two values of a list.
pub open spec fn double_bar() -> Seq<char> {
    seq!['|', '|']
}

/// What closes a clause.
pub open spec fn closing() -> Seq<char> {
    seq![')']
}

/// A name between two `quote` characters: at least one character, none of them the
/// quote itself.
pub open spec fn spec_quoted(s: Seq<char>, quote: char) -> Parsed<ValueView> {
    match spec_symbol(s, quote) {
        Err(kind) => Err(kind),
        Ok(opened) => match spec_is_not(opened, seq![quote]) {
            Err(kind) => Err(kind),
            Ok((behind, text)) => match spec_symbol(behind, quote) {
                Err(kind) => Err(kind),
                Ok(rest) => Ok((rest, ValueView::Name(text))),
            },
        },
    }
}

/// A name in double quotes or, failing that, in single quotes.
pub open spec fn spec_string(s: Seq<char>) -> Parsed<ValueView> {
    match spec_quoted(s, '"') {
        Ok(found) => Ok(found),
        Err(_) => spec_quoted(s, '\''),
    }
}

/// An identifier: a number in decimal digits.
pub open spec fn spec_id(s: Seq<char>) -> Parsed<ValueView> {
    match spec_number(s) {
        Err(kind) => Err(kind),
        Ok((rest, id)) => Ok((rest, ValueView::Id(id))),
    }
}

/// A value: a quoted name or, failing that, an identifier.
pub open spec fn spec_value(s: Seq<char>) -> Parsed<ValueView> {
    match spec_string(s) {
        Ok(found) => Ok(found),
        Err(_) => spec_id(s),
    }
}

/// The separator of a list, with the whitespace around it.
pub open spec fn spec_separator(s: Seq<char>) -> Scanned {
    match spec_tag(skip_spaces(s), double_bar()) {
        Err(kind) => Err(kind),
        Ok(rest) => Ok(skip_spaces(rest)),
    }
}

/// The further values of a list, each behind a separator, and what is left behind the
/// last of them. A separator that no value follows is not read.
pub open spec fn spec_more_values(s: Seq<char>) -> (Seq<char>, Seq<ValueView>)
    decreases s.len(),
    via spec_more_values_decreases
{
    match spec_separator(s) {
        Err(_) => (s, Seq::empty()),
        Ok(behind) => match spec_value(behind) {
            Err(_) => (s, Seq::empty()),
            Ok((rest, value)) => {
                let (end, more) = spec_more_values(rest);
                (end, seq![value] + more)
            },
        },
    }
}

#[via_fn]
proof fn spec_more_values_decreases(s: Seq<char>) {
    if let Ok(behind) = spec_separator(s) {
        lemma_separator_shrinks(s);
        lemma_value_shrinks(behind);
    }
}

/// A list of values: one value, then any number of further ones.
pub open spec fn spec_values(s: Seq<char>) -> Parsed<Seq<ValueView>> {
    match spec_value(s) {
        Err(kind) => Err(kind),
        Ok((rest, value)) => {
            let (end, more) = spec_more_values(rest);
            Ok((end, seq![value] + more))
        },
    }
}

/// What follows the keyword of a clause: a list of values with whitespace around it,
/// and the closing parenthesis.
pub open spec fn spec_list(s: Seq<char>) -> Parsed<Seq<ValueView>> {
    match spec_values(skip_spaces(s)) {
        Err(kind) => Err(kind),
        Ok((behind, values)) => match spec_tag(skip_spaces(behind), closing()) {
            Err(kind) => Err(kind),
            Ok(rest) => Ok((rest, values)),
        },
    }
}

/// A guild clause.
pub open spec fn spec_guild(s: Seq<char>) -> Parsed<FilterView> {
    match spec_keyword(s, guild_word()) {
        Err(kind) => Err(kind),
        Ok(behind) => match spec_list(behind) {
            Err(kind) => Err(kind),
            Ok((rest, values)) => Ok((rest, FilterView::Guild(values))),
        },
    }
}

/// A from clause.
pub open spec fn spec_from(s: Seq<char>) -> Parsed<FilterView> {
    match spec_keyword(s, from_word()) {
        Err(kind) => Err(kind),
        Ok(behind) => match spec_list(behind) {
            Err(kind) => Err(kind),
            Ok((rest, values)) => Ok((rest, FilterView::From(values))),
        },
    }
}

/// A clause: a guild clause or, failing that, a from clause.
pub open spec fn spec_either(s: Seq<char>) -> Parsed<FilterView> {
    match spec_guild(s) {
        Ok(found) => Ok(found),
        Err(_) => spec_from(s),
    }
}

/// The clauses of a whole query, in their order: whitespace may stand before, between
/// and behind them, and nothing else. Where something else stands, the query fails
/// with what kept it from being a clause.
pub open spec fn spec_clauses(s: Seq<char>) -> Result<Seq<FilterView>, ErrorKind>
    decreases s.len(),
    via spec_clauses_decreases
{
    let start = skip_spaces(s);
    if start.len() == 0 {
        Ok(Seq::empty())
    } else {
        match spec_either(start) {
            Err(kind) => Err(kind),
            Ok((rest, filter)) => match spec_clauses(rest) {
                Err(kind) => Err(kind),
                Ok(filters) => Ok(seq![filter] + filters),
            },
        }
    }
}

#[via_fn]
proof fn spec_clauses_decreases(s: Seq<char>) {
    lemma_skip_spaces_shrinks(s);
    lemma_either_shrinks(skip_spaces(s));
}

/// The query that a sequence of clauses makes: the values of its guild clauses, one
/// clause after the other, and the values of its from clauses likewise.
pub open spec fn merged(filters: Seq<FilterView>) -> QueryView {
    QueryView {
        guild: filters.map_values(|f: FilterView| f.guild_part()).flatten(),
        from: filters.map_values(|f: FilterView| f.from_part()).flatten(),
    }
}

/// The query that a text writes, or the code of what is wrong with the text.
pub open spec fn spec_query(s: Seq<char>) -> Result<QueryView, ErrorKind> {
    match spec_clauses(s) {
        Err(kind) => Err(kind),
        Ok(filters) => Ok(merged(filters)),
    }
}

/// A run is no longer than the text it starts.
pub proof fn lemma_run_length_bound(s: Seq<char>, within: spec_fn(char) -> bool)
    ensures
        run_length(s, within) <= s.len(),
    decreases s.len(),
{
    if s.len() > 0 && within(s[0]) {
        lemma_run_length_bound(s.skip(1), within);
    }
}

/// Skipping whitespace does not make a text longer.
pub proof fn lemma_skip_spaces_shrinks(s: Seq<char>)
    ensures
        skip_spaces(s).len() <= s.len(),
{
    lemma_run_length_bound(s, spaces());
}

/// A separator reads at least its two bars.
pub proof fn lemma_separator_shrinks(s: Seq<char>)
    ensures
        spec_separator(s) is Ok ==> spec_separator(s)->Ok_0.len() + 2 <= s.len(),
{
    lemma_skip_spaces_shrinks(s);
    if let Ok(rest) = spec_tag(skip_spaces(s), double_bar()) {
        lemma_skip_spaces_shrinks(rest);
    }
}

/// A value reads at least one character.
pub proof fn lemma_value_shrinks(s: Seq<char>)
    ensures
        spec_value(s) is Ok ==> spec_value(s)->Ok_0.0.len() < s.len(),
{
    lemma_quoted_shrinks(s, '"');
    lemma_quoted_shrinks(s, '\'');
    lemma_run_length_bound(s, digits());
}

/// A quoted name reads at least its two quotes.
pub proof fn lemma_quoted_shrinks(s: Seq<char>, quote: char)
    ensures
        spec_quoted(s, quote) is Ok ==> spec_quoted(s, quote)->Ok_0.0.len() + 2 < s.len(),
{
    if s.len() > 0 {
        lemma_run_length_bound(s.skip(1), none_of(seq![quote]));
    }
}

/// A list of values does not leave more than it was given.
pub proof fn lemma_more_values_shrinks(s: Seq<char>)
    ensures
        spec_more_values(s).0.len() <= s.len(),
    decreases s.len(),
{
    if let Ok(behind) = spec_separator(s) {
        lemma_separator_shrinks(s);
        lemma_value_shrinks(behind);
        if let Ok((rest, _)) = spec_value(behind) {
            lemma_more_values_shrinks(rest);
        }
    }
}

/// A clause reads at least one character.
pub proof fn lemma_either_shrinks(s: Seq<char>)
    ensures
        spec_either(s) is Ok ==> spec_either(s)->Ok_0.0.len() < s.len(),
{
    lemma_clause_shrinks(s, guild_word());
    lemma_clause_shrinks(s, from_word());
}

/// What follows a keyword is shorter than the text that starts with the keyword.
proof fn lemma_clause_shrinks(s: Seq<char>, word: Seq<char>)
    requires
        word.len() > 0,
    ensures
        spec_keyword(s, word) is Ok ==> spec_keyword(s, word)->Ok_0.len() < s.len(),
        spec_keyword(s, word) is Ok && spec_list(spec_keyword(s, word)->Ok_0) is Ok ==> spec_list(
            spec_keyword(s, word)->Ok_0,
        )->Ok_0.0.len() < s.len(),
{
    if let Ok(behind) = spec_keyword(s, word) {
        let start = skip_spaces(behind);
        lemma_skip_spaces_shrinks(behind);
        lemma_value_shrinks(start);
        if let Ok((rest, _)) = spec_value(start) {
            lemma_more_values_shrinks(rest);
            let end = spec_more_values(rest).0;
            lemma_skip_spaces_shrinks(end);
        }
    }
}

/// Skipping whitespace twice is skipping it once.
pub proof fn lemma_skip_spaces_twice(s: Seq<char>)
    ensures
        skip_spaces(skip_spaces(s)) == skip_spaces(s),
    decreases s.len(),
{
    if s.len() > 0 && is_space(s[0]) {
        lemma_skip_spaces_twice(s.skip(1));
        lemma_run_length_bound(s.skip(1), spaces());
        assert(s.skip(1).skip(run_length(s.skip(1), spaces()) as int) =~= skip_spaces(s));
    } else {
        assert(s.skip(0) =~= s);
    }
}

/// The clauses `done` before those that are still to come, if they come.
pub open spec fn behind(
    done: Seq<FilterView>,
    coming: Result<Seq<FilterView>, ErrorKind>,
) -> Result<Seq<FilterView>, ErrorKind> {
    match coming {
        Err(kind) => Err(kind),
        Ok(more) => Ok(done + more),
    }
}

/// Reading one clause of a text that starts with none of its whitespace: either the
/// text fails with what the clause fails with, or the clause joins those before it and
/// the rest is read likewise.
pub proof fn lemma_clauses_next(done: Seq<FilterView>, s: Seq<char>)
    requires
        s == skip_spaces(s),
        s.len() > 0,
    ensures
        (match spec_either(s) {
            Err(kind) => behind(done, spec_clauses(s)) == Err::<Seq<FilterView>, ErrorKind>(kind),
            Ok((rest, filter)) => behind(done, spec_clauses(s)) == behind(
                done.push(filter),
                spec_clauses(skip_spaces(rest)),
            ),
        }),
{
    if let Ok((rest, filter)) = spec_either(s) {
        lemma_skip_spaces_twice(rest);
        assert(spec_clauses(skip_spaces(rest)) == spec_clauses(rest));
        if let Ok(more) = spec_clauses(rest) {
            assert(done.push(filter) + more =~= done + (seq![filter] + more));
        }
    }
}

/// One more clause adds its values behind those of the clauses before it.
pub proof fn lemma_merged_push(filters: Seq<FilterView>, filter: FilterView)
    ensures
        merged(filters.push(filter)).guild == merged(filters).guild + filter.guild_part(),
        merged(filters.push(filter)).from == merged(filters).from + filter.from_part(),
{
    let guilds = filters.map_values(|f: FilterView| f.guild_part());
    let froms = filters.map_values(|f: FilterView| f.from_part());
    assert(filters.push(filter).map_values(|f: FilterView| f.guild_part()) =~= guilds.push(
        filter.guild_part(),
    ));
    assert(filters.push(filter).map_values(|f: FilterView| f.from_part()) =~= froms.push(
        filter.from_part(),
    ));
    guilds.lemma_flatten_push(filter.guild_part());
    froms.lemma_flatten_push(filter.from_part());
}

} // verus!
