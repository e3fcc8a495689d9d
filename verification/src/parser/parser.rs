use nom::error::ErrorKind;
use vstd::prelude::*;

use crate::parser::error::Error;
use crate::parser::grammar::{
    behind, closing, double_bar, from_word, guild_word, lemma_clauses_next,
    lemma_either_shrinks, lemma_merged_push, lemma_separator_shrinks, lemma_skip_spaces_shrinks,
    lemma_skip_spaces_twice, lemma_value_shrinks, merged, spec_clauses, spec_either, spec_from,
    spec_guild, spec_id, spec_list, spec_more_values, spec_quoted, spec_query, spec_separator,
    spec_string, spec_value, spec_values,
};
use crate::parser::keyword::keyword;
use crate::parser::scan::{
    is_not, multispace0, number, outcome, scanned, skip_spaces, symbol, tag,
};

verus! {

/// One match target inside a clause: a quoted name or a numeric identifier.
#[derive(Debug, PartialEq)]
pub enum Value {
    Name(String),
    Id(u64),
}

/// What a [`Value`] stands for: the characters of a name, or the number of an identifier.
pub enum ValueView {
    Name(Seq<char>),
    Id(u64),
}

impl View for Value {
    type V = ValueView;

    open spec fn view(&self) -> ValueView {
        match *self {
            Value::Name(n) => ValueView::Name(n@),
            Value::Id(id) => ValueView::Id(id),
        }
    }
}

impl DeepView for Value {
    type V = ValueView;

    open spec fn deep_view(&self) -> ValueView {
        self@
    }
}

impl Clone for Value {
    fn clone(&self) -> (res: Self)
        ensures
            res == *self,
    {
        match self {
            Value::Name(n) => Value::Name(n.clone()),
            Value::Id(id) => Value::Id(*id),
        }
    }
}

/// One parsed clause: the values listed in a `guild(...)` or in a `from(...)`.
#[derive(Debug, PartialEq)]
pub enum Filter {
    Guild(Vec<Value>),
    From(Vec<Value>),
}

/// What a [`Filter`] stands for.
pub enum FilterView {
    Guild(Seq<ValueView>),
    From(Seq<ValueView>),
}

impl FilterView {
    /// The values of a guild clause; none for a from clause.
    pub open spec fn guild_part(self) -> Seq<ValueView> {
        match self {
            FilterView::Guild(values) => values,
            FilterView::From(_) => Seq::empty(),
        }
    }

    /// The values of a from clause; none for a guild clause.
    pub open spec fn from_part(self) -> Seq<ValueView> {
        match self {
            FilterView::Guild(_) => Seq::empty(),
            FilterView::From(values) => values,
        }
    }
}

impl View for Filter {
    type V = FilterView;

    open spec fn view(&self) -> FilterView {
        match *self {
            Filter::Guild(v) => FilterView::Guild(v.deep_view()),
            Filter::From(v) => FilterView::From(v.deep_view()),
        }
    }
}

impl DeepView for Filter {
    type V = FilterView;

    open spec fn deep_view(&self) -> FilterView {
        self@
    }
}

/// A copy of a list of values.
fn clone_values(values: &Vec<Value>) -> (res: Vec<Value>)
    ensures
        res@ == values@,
{
    let res = values.clone();
    assert forall|i: int| 0 <= i < values.len() implies res@[i] == values@[i] by {
        assert(cloned::<Value>(values[i], res[i]));
    }
    assert(res@ =~= values@);
    res
}

impl Clone for Filter {
    fn clone(&self) -> (res: Self)
        ensures
            res@ == self@,
    {
        match self {
            Filter::Guild(v) => Filter::Guild(clone_values(v)),
            Filter::From(v) => Filter::From(clone_values(v)),
        }
    }
}

impl Filter {
    /// The values of a `guild(...)` clause; nothing for a `from(...)` clause.
    pub fn is_guild(filter: &Filter) -> (res: Option<Vec<Value>>)
        ensures
            (match *filter {
                Filter::Guild(v) => res is Some && res->0@ == v@,
                Filter::From(_) => res is None,
            }),
    {
        match filter {
            Filter::Guild(v) => Some(clone_values(v)),
            Filter::From(_) => None,
        }
    }

    /// The values of a `from(...)` clause; nothing for a `guild(...)` clause.
    pub fn is_from(filter: &Filter) -> (res: Option<Vec<Value>>)
        ensures
            (match *filter {
                Filter::Guild(_) => res is None,
                Filter::From(v) => res is Some && res->0@ == v@,
            }),
    {
        match filter {
            Filter::Guild(_) => None,
            Filter::From(v) => Some(clone_values(v)),
        }
    }
}

/// Reads a name between two `quote` characters; `stops` holds the quote alone.
fn quoted<'a>(input: &'a str, quote: char, stops: &str) -> (r: Result<(&'a str, Value), ErrorKind>)
    requires
        stops@ == seq![quote],
    ensures
        outcome(r) == spec_quoted(input@, quote),
{
    let opened = symbol(input, quote)?;
    let (behind, text) = is_not(opened, stops)?;
    let rest = symbol(behind, quote)?;
    Ok((rest, Value::Name(text.to_owned())))
}

/// Reads a name in single quotes.
pub fn parse_single_quotes<'a>(input: &'a str) -> (r: Result<(&'a str, Value), ErrorKind>)
    ensures
        outcome(r) == spec_quoted(input@, '\''),
{
    proof {
        reveal_strlit("'");
        assert("'"@ =~= seq!['\'']);
    }
    quoted(input, '\'', "'")
}

/// Reads a name in double quotes.
pub fn parse_double_quotes<'a>(input: &'a str) -> (r: Result<(&'a str, Value), ErrorKind>)
    ensures
        outcome(r) == spec_quoted(input@, '"'),
{
    proof {
        reveal_strlit("\"");
        assert("\""@ =~= seq!['"']);
    }
    quoted(input, '"', "\"")
}

/// Reads a quoted name: in double quotes or, failing that, in single quotes.
pub fn parse_string<'a>(input: &'a str) -> (r: Result<(&'a str, Value), ErrorKind>)
    ensures
        outcome(r) == spec_string(input@),
{
    match parse_double_quotes(input) {
        Ok(found) => Ok(found),
        Err(_) => parse_single_quotes(input),
    }
}

/// Reads an identifier. Only the digits are read: what follows them is left.
pub fn parse_number<'a>(input: &'a str) -> (r: Result<(&'a str, Value), ErrorKind>)
    ensures
        outcome(r) == spec_id(input@),
{
    let (rest, id) = number(input)?;
    Ok((rest, Value::Id(id)))
}

/// Reads a value: a quoted name or, failing that, an identifier.
pub fn parse_value<'a>(input: &'a str) -> (r: Result<(&'a str, Value), ErrorKind>)
    ensures
        outcome(r) == spec_value(input@),
{
    match parse_string(input) {
        Ok(found) => Ok(found),
        Err(_) => parse_number(input),
    }
}

/// Reads the separator of a list, with the whitespace around it.
fn separator<'a>(input: &'a str) -> (r: Result<&'a str, ErrorKind>)
    ensures
        scanned(r) == spec_separator(input@),
{
    proof {
        reveal_strlit("||");
        assert("||"@ =~= double_bar());
    }
    let rest = tag(multispace0(input), "||")?;
    Ok(multispace0(rest))
}

/// Reads a list of values: one value, then further ones, each behind a separator.
pub fn parse_values<'a>(input: &'a str) -> (r: Result<(&'a str, Vec<Value>), ErrorKind>)
    ensures
        outcome(r) == spec_values(input@),
{
    let (start, first) = parse_value(input)?;
    let mut rest = start;
    let mut values: Vec<Value> = Vec::new();
    values.push(first);
    assert(values.deep_view() =~= seq![first@]);
    let mut open = true;
    while open
        invariant
            spec_more_values(start@).0 == spec_more_values(rest@).0,
            seq![first@] + spec_more_values(start@).1 == values.deep_view() + spec_more_values(
                rest@,
            ).1,
            !open ==> spec_more_values(rest@) == (rest@, Seq::<ValueView>::empty()),
        decreases rest@.len(), (if open { 1nat } else { 0nat }),
    {
        proof {
            lemma_separator_shrinks(rest@);
        }
        open = false;
        if let Ok(behind) = separator(rest) {
            proof {
                lemma_value_shrinks(behind@);
            }
            if let Ok((next, value)) = parse_value(behind) {
                let ghost before = values.deep_view();
                values.push(value);
                assert(values.deep_view() =~= before.push(value@));
                assert(before.push(value@) + spec_more_values(next@).1 =~= before + (seq![value@]
                    + spec_more_values(next@).1));
                rest = next;
                open = true;
            }
        }
    }
    Ok((rest, values))
}

/// Reads what follows the keyword of a clause: a list of values with whitespace around
/// it, and the closing parenthesis.
pub fn parse_list<'a>(input: &'a str) -> (r: Result<(&'a str, Vec<Value>), ErrorKind>)
    ensures
        outcome(r) == spec_list(input@),
{
    proof {
        reveal_strlit(")");
        assert(")"@ =~= closing());
    }
    let (behind, values) = parse_values(multispace0(input))?;
    let rest = tag(multispace0(behind), ")")?;
    Ok((rest, values))
}

/// Reads a guild clause.
pub fn parse_guild<'a>(input: &'a str) -> (r: Result<(&'a str, Filter), ErrorKind>)
    ensures
        outcome(r) == spec_guild(input@),
{
    proof {
        reveal_strlit("guild(");
        assert("guild("@ =~= guild_word());
    }
    let behind = keyword(input, "guild(")?;
    let (rest, values) = parse_list(behind)?;
    Ok((rest, Filter::Guild(values)))
}

/// Reads a from clause.
pub fn parse_from<'a>(input: &'a str) -> (r: Result<(&'a str, Filter), ErrorKind>)
    ensures
        outcome(r) == spec_from(input@),
{
    proof {
        reveal_strlit("from(");
        assert("from("@ =~= from_word());
    }
    let behind = keyword(input, "from(")?;
    let (rest, values) = parse_list(behind)?;
    Ok((rest, Filter::From(values)))
}

/// Reads a clause: a guild clause or, failing that, a from clause.
pub fn either<'a>(input: &'a str) -> (r: Result<(&'a str, Filter), ErrorKind>)
    ensures
        outcome(r) == spec_either(input@),
{
    match parse_guild(input) {
        Ok(found) => Ok(found),
        Err(_) => parse_from(input),
    }
}

/// Reads a whole query as its clauses, in their order. Nothing is left of the input
/// where that succeeds: a text with anything but clauses and whitespace fails.
pub fn parse_query<'a>(input: &'a str) -> (r: Result<(&'a str, Vec<Filter>), ErrorKind>)
    ensures
        (match spec_clauses(input@) {
            Ok(filters) => r is Ok && r->Ok_0.0@.len() == 0 && r->Ok_0.1.deep_view() == filters,
            Err(kind) => r is Err && r->Err_0 == kind,
        }),
{
    let mut rest = multispace0(input);
    let mut filters: Vec<Filter> = Vec::new();
    proof {
        lemma_skip_spaces_twice(input@);
        assert(filters.deep_view() =~= Seq::<FilterView>::empty());
        assert(behind(filters.deep_view(), spec_clauses(rest@)) =~= spec_clauses(rest@));
    }
    while !rest.is_empty()
        invariant
            rest@ == skip_spaces(rest@),
            spec_clauses(input@) == behind(filters.deep_view(), spec_clauses(rest@)),
        decreases rest@.len(),
    {
        proof {
            lemma_either_shrinks(rest@);
            lemma_clauses_next(filters.deep_view(), rest@);
        }
        let (next, filter) = either(rest)?;
        let ghost before = filters.deep_view();
        filters.push(filter);
        proof {
            assert(filters.deep_view() =~= before.push(filter@));
            lemma_skip_spaces_shrinks(next@);
            lemma_skip_spaces_twice(next@);
        }
        rest = multispace0(next);
    }
    proof {
        assert(filters.deep_view() + Seq::<FilterView>::empty() =~= filters.deep_view());
    }
    Ok((rest, filters))
}

/// A parsed query: every value of every `guild(...)` clause, and every value of every
/// `from(...)` clause, each list in the order in which the values were written.
#[derive(Debug)]
pub struct Query {
    pub guild: Vec<Value>,
    pub from: Vec<Value>,
}

/// What a [`Query`] stands for.
pub struct QueryView {
    pub guild: Seq<ValueView>,
    pub from: Seq<ValueView>,
}

impl QueryView {
    /// A query without any value selects everything.
    pub open spec fn is_blank(self) -> bool {
        self.guild.len() == 0 && self.from.len() == 0
    }
}

impl View for Query {
    type V = QueryView;

    open spec fn view(&self) -> QueryView {
        QueryView { guild: self.guild.deep_view(), from: self.from.deep_view() }
    }
}

impl DeepView for Query {
    type V = QueryView;

    open spec fn deep_view(&self) -> QueryView {
        self@
    }
}

impl Query {
    /// Reads a query: the clauses of the text, merged by their kind. A text that is
    /// not a query in full gives an error and no query. So does a number with other
    /// characters behind it, as in `guild(12abc)`: the digits are read as the value,
    /// and the clause then lacks its parenthesis.
    pub fn from_str(input: &str) -> (r: Result<Query, Error>)
        ensures
            (match spec_query(input@) {
                Ok(query) => r is Ok && r->Ok_0@ == query,
                Err(kind) => r is Err && r->Err_0 == Error::Failed(kind),
            }),
    {
        let result = match parse_query(input) {
            Ok(found) => found.1,
            Err(kind) => {
                return Err(Error::Failed(kind));
            },
        };
        let ghost clauses = result.deep_view();
        let mut guild: Vec<Value> = Vec::new();
        let mut from: Vec<Value> = Vec::new();
        let mut i: usize = 0;
        assert(clauses.take(0) =~= Seq::<FilterView>::empty());
        assert(guild.deep_view() =~= merged(clauses.take(0)).guild);
        assert(from.deep_view() =~= merged(clauses.take(0)).from);
        while i < result.len()
            invariant
                i <= result.len(),
                clauses == result.deep_view(),
                guild.deep_view() == merged(clauses.take(i as int)).guild,
                from.deep_view() == merged(clauses.take(i as int)).from,
            decreases result.len() - i,
        {
            proof {
                lemma_merged_push(clauses.take(i as int), result[i as int]@);
                assert(clauses.take(i as int + 1) =~= clauses.take(i as int).push(
                    result[i as int]@,
                ));
            }
            if let Some(values) = Filter::is_guild(&result[i]) {
                extend(&mut guild, values);
            }
            if let Some(values) = Filter::is_from(&result[i]) {
                extend(&mut from, values);
            }
            i += 1;
        }
        assert(clauses.take(result.len() as int) =~= clauses);
        Ok(Query { guild, from })
    }
}

/// Moves the values of `more` behind those of `values`.
fn extend(values: &mut Vec<Value>, more: Vec<Value>)
    ensures
        final(values).deep_view() == old(values).deep_view() + more.deep_view(),
{
    let mut more = more;
    let ghost start = values.deep_view();
    let ghost added = more.deep_view();
    values.append(&mut more);
    assert(values.deep_view() =~= start + added);
}

} // verus!
