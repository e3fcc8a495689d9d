use nom::error::ErrorKind;
use vstd::prelude::*;

use crate::parser::grammar::{
    closing, double_bar, from_word, guild_word, lemma_either_shrinks, lemma_merged_push,
    lemma_run_length_bound, lemma_separator_shrinks, lemma_value_shrinks, merged, spec_clauses,
    spec_either, spec_guild, spec_list, spec_more_values, spec_query, spec_quoted,
    spec_separator, spec_string, spec_value, spec_values,
};
use crate::parser::parser::{FilterView, QueryView, ValueView};
use crate::parser::scan::{
    caseless, decimal, digits, is_digit, is_space, none_of, run_length, skip_spaces, spaces,
    spec_keyword, spec_number, spec_tag, starts_caseless,
};

verus! {

/// A run ends where the first character outside the class stands: if the first `n`
/// characters of `s` are within the class, and `s` ends there or goes on with one that
/// is not, the run has length `n`.
pub proof fn lemma_run_length_is(s: Seq<char>, within: spec_fn(char) -> bool, n: nat)
    requires
        n <= s.len(),
        forall|i: int| 0 <= i < n ==> within(#[trigger] s[i]),
        n == s.len() || !within(s[n as int]),
    ensures
        run_length(s, within) == n,
    decreases n,
{
    if n > 0 {
        let t = s.skip(1);
        assert forall|i: int| 0 <= i < n - 1 implies within(#[trigger] t[i]) by {
            assert(t[i] == s[i + 1]);
        }
        lemma_run_length_is(t, within, (n - 1) as nat);
    }
}

/// A name in single or double quotes is read as the text between the quotes: for a
/// text of at least one character that does not hold the quote, the value written as
/// quote, text, quote is the name `text`, and what follows the closing quote is left.
/// Nothing can stand between the quotes of an empty name, which is no value.
pub proof fn lemma_quoted_name(quote: char, text: Seq<char>, rest: Seq<char>)
    requires
        quote == '\'' || quote == '"',
        text.len() > 0,
        !text.contains(quote),
    ensures
        spec_value(seq![quote] + text + seq![quote] + rest) == Ok::<
            (Seq<char>, ValueView),
            ErrorKind,
        >((rest, ValueView::Name(text))),
{
    let s = seq![quote] + text + seq![quote] + rest;
    let opened = s.skip(1);
    let stop = none_of(seq![quote]);
    let n = text.len();
    assert(s[0] == quote);
    assert(opened =~= text + seq![quote] + rest);
    assert forall|i: int| 0 <= i < n implies stop(#[trigger] opened[i]) by {
        assert(opened[i] == text[i]);
        assert(text.contains(text[i]));
        assert(forall|j: int| 0 <= j < 1 ==> seq![quote][j] == quote);
    }
    assert(opened[n as int] == quote);
    assert(seq![quote][0] == quote);
    assert(seq![quote].contains(quote));
    lemma_run_length_is(opened, stop, n);
    assert(opened.take(n as int) =~= text);
    assert(opened.skip(n as int) =~= seq![quote] + rest);
    assert(opened.skip(n as int).skip(1) =~= rest);
    assert(spec_quoted(s, quote) == Ok::<(Seq<char>, ValueView), ErrorKind>(
        (rest, ValueView::Name(text)),
    ));
}

/// An unsigned number in decimal digits is read as the identifier of that number: for
/// at least one digit, writing a number that fits into 64 bits, and followed by the
/// end of the text or by anything but a digit, the value is the identifier with the
/// number that the digits write, and what follows the digits is left.
pub proof fn lemma_unsigned_number(text: Seq<char>, rest: Seq<char>)
    requires
        text.len() > 0,
        forall|i: int| 0 <= i < text.len() ==> is_digit(#[trigger] text[i]),
        decimal(text) <= u64::MAX,
        rest.len() == 0 || !is_digit(rest[0]),
    ensures
        spec_value(text + rest) == Ok::<(Seq<char>, ValueView), ErrorKind>(
            (rest, ValueView::Id(decimal(text) as u64)),
        ),
{
    let s = text + rest;
    let n = text.len();
    assert(is_digit(text[0]));
    assert(s[0] == text[0]);
    assert forall|i: int| 0 <= i < n implies digits()(#[trigger] s[i]) by {
        assert(s[i] == text[i]);
    }
    if rest.len() > 0 {
        assert(s[n as int] == rest[0]);
    }
    lemma_run_length_is(s, digits(), n);
    assert(s.take(n as int) =~= text);
    assert(s.skip(n as int) =~= rest);
    assert(spec_string(s) is Err);
    assert(spec_number(s) == Ok::<(Seq<char>, u64), ErrorKind>((rest, decimal(text) as u64)));
}

/// A text of whitespace alone, the empty text too, is the query without any value.
pub proof fn lemma_no_clause_is_blank(s: Seq<char>)
    requires
        forall|i: int| 0 <= i < s.len() ==> is_space(#[trigger] s[i]),
    ensures
        spec_query(s) is Ok,
        spec_query(s)->Ok_0.is_blank(),
{
    assert forall|i: int| 0 <= i < s.len() implies spaces()(#[trigger] s[i]) by {}
    lemma_run_length_is(s, spaces(), s.len());
    assert(skip_spaces(s).len() == 0);
    assert(spec_clauses(s) == Ok::<Seq<FilterView>, ErrorKind>(Seq::empty()));
    lemma_merged_empty();
}

/// No clauses make the query without any value.
pub proof fn lemma_merged_empty()
    ensures
        merged(Seq::empty()).is_blank(),
{
    let none = Seq::<FilterView>::empty();
    assert(none.map_values(|f: FilterView| f.guild_part()) =~= Seq::<Seq<ValueView>>::empty());
    assert(none.map_values(|f: FilterView| f.from_part()) =~= Seq::<Seq<ValueView>>::empty());
}

/// Clauses of one kind add up in the order in which they stand: the query of two
/// sequences of clauses, one behind the other, holds the guild values of the first
/// and then those of the second, and its from values likewise.
pub proof fn lemma_merged_concat(first: Seq<FilterView>, second: Seq<FilterView>)
    ensures
        merged(first + second).guild == merged(first).guild + merged(second).guild,
        merged(first + second).from == merged(first).from + merged(second).from,
    decreases second.len(),
{
    if second.len() == 0 {
        lemma_merged_empty();
        assert(first + second =~= first);
        assert(merged(first).guild + merged(second).guild =~= merged(first).guild);
        assert(merged(first).from + merged(second).from =~= merged(first).from);
    } else {
        let init = second.drop_last();
        let last = second.last();
        lemma_merged_concat(first, init);
        assert(first + second =~= (first + init).push(last));
        assert(second =~= init.push(last));
        lemma_merged_push(first + init, last);
        lemma_merged_push(init, last);
        assert((merged(first).guild + merged(init).guild) + last.guild_part() =~= merged(
            first,
        ).guild + (merged(init).guild + last.guild_part()));
        assert((merged(first).from + merged(init).from) + last.from_part() =~= merged(first).from
            + (merged(init).from + last.from_part()));
    }
}

/// Two guild clauses make one list of guild values, those of the first clause before
/// those of the second; two from clauses likewise.
pub proof fn lemma_merged_pair(first: Seq<ValueView>, second: Seq<ValueView>)
    ensures
        merged(seq![FilterView::Guild(first), FilterView::Guild(second)]) == (QueryView {
            guild: first + second,
            from: Seq::empty(),
        }),
        merged(seq![FilterView::From(first), FilterView::From(second)]) == (QueryView {
            guild: Seq::empty(),
            from: first + second,
        }),
{
    lemma_merged_empty();
    let none = Seq::<FilterView>::empty();
    let guilds = seq![FilterView::Guild(first), FilterView::Guild(second)];
    let froms = seq![FilterView::From(first), FilterView::From(second)];
    assert(guilds =~= none.push(FilterView::Guild(first)).push(FilterView::Guild(second)));
    assert(froms =~= none.push(FilterView::From(first)).push(FilterView::From(second)));
    lemma_merged_push(none, FilterView::Guild(first));
    lemma_merged_push(
        none.push(FilterView::Guild(first)),
        FilterView::Guild(second),
    );
    lemma_merged_push(none, FilterView::From(first));
    lemma_merged_push(
        none.push(FilterView::From(first)),
        FilterView::From(second),
    );
    assert(merged(guilds).guild =~= first + second);
    assert(merged(guilds).from =~= Seq::<ValueView>::empty());
    assert(merged(froms).from =~= first + second);
    assert(merged(froms).guild =~= Seq::<ValueView>::empty());
}

/// The first clause of a text comes first in its query: where a clause is read at the
/// start of a text, behind its whitespace, and the text behind the clause is a query,
/// the whole text is the query that holds the values of the clause and then, for each
/// kind, the values of the query behind it.
pub proof fn lemma_first_clause(s: Seq<char>)
    requires
        spec_either(skip_spaces(s)) is Ok,
        spec_query(spec_either(skip_spaces(s))->Ok_0.0) is Ok,
    ensures
        spec_query(s) is Ok,
        spec_query(s)->Ok_0.guild == spec_either(skip_spaces(s))->Ok_0.1.guild_part()
            + spec_query(spec_either(skip_spaces(s))->Ok_0.0)->Ok_0.guild,
        spec_query(s)->Ok_0.from == spec_either(skip_spaces(s))->Ok_0.1.from_part() + spec_query(
            spec_either(skip_spaces(s))->Ok_0.0,
        )->Ok_0.from,
{
    let start = skip_spaces(s);
    let (rest, filter) = spec_either(start)->Ok_0;
    let filters = spec_clauses(rest)->Ok_0;
    lemma_either_shrinks(start);
    assert(start.len() > 0);
    assert(spec_clauses(s) == Ok::<Seq<FilterView>, ErrorKind>(seq![filter] + filters));
    lemma_merged_concat(seq![filter], filters);
    lemma_merged_empty();
    assert(seq![filter] =~= Seq::<FilterView>::empty().push(filter));
    lemma_merged_push(Seq::<FilterView>::empty(), filter);
    assert(merged(seq![filter]).guild =~= filter.guild_part());
    assert(merged(seq![filter]).from =~= filter.from_part());
}

/// A value starts with a quote or with a digit, so not with whitespace.
pub proof fn lemma_value_start(s: Seq<char>)
    requires
        spec_value(s) is Ok,
    ensures
        s.len() > 0,
        !is_space(s[0]),
{
    if spec_string(s) is Err {
        assert(run_length(s, digits()) > 0);
    }
}

/// A keyword is read whatever the case of its letters, and what follows it is left.
pub proof fn lemma_keyword_read(word: Seq<char>, key: Seq<char>, rest: Seq<char>)
    requires
        word.len() == key.len(),
        starts_caseless(word, key),
    ensures
        spec_keyword(word + rest, key) == Ok::<Seq<char>, ErrorKind>(rest),
{
    let s = word + rest;
    assert forall|i: int| 0 <= i < key.len() implies caseless(#[trigger] s[i]) == caseless(
        key[i],
    ) by {
        assert(s[i] == word[i]);
    }
    assert(s.skip(key.len() as int) =~= rest);
}

/// Whitespace before a character that is none is skipped, and no more.
pub proof fn lemma_spaces_skipped(pad: Seq<char>, rest: Seq<char>)
    requires
        forall|i: int| 0 <= i < pad.len() ==> is_space(#[trigger] pad[i]),
        rest.len() == 0 || !is_space(rest[0]),
    ensures
        skip_spaces(pad + rest) == rest,
{
    let s = pad + rest;
    assert forall|i: int| 0 <= i < pad.len() implies spaces()(#[trigger] s[i]) by {
        assert(s[i] == pad[i]);
    }
    if rest.len() > 0 {
        assert(s[pad.len() as int] == rest[0]);
    }
    lemma_run_length_is(s, spaces(), pad.len());
    assert(s.skip(pad.len() as int) =~= rest);
}

/// One value between the keyword and the parenthesis of a clause, with any whitespace
/// before and behind it, is the list of that value, and what follows the parenthesis
/// is left.
pub proof fn lemma_one_value_list(
    before: Seq<char>,
    text: Seq<char>,
    after: Seq<char>,
    value: ValueView,
    rest: Seq<char>,
)
    requires
        forall|i: int| 0 <= i < before.len() ==> is_space(#[trigger] before[i]),
        forall|i: int| 0 <= i < after.len() ==> is_space(#[trigger] after[i]),
        spec_value(text + after + closing() + rest) == Ok::<(Seq<char>, ValueView), ErrorKind>(
            (after + closing() + rest, value),
        ),
    ensures
        spec_list(before + text + after + closing() + rest) == Ok::<
            (Seq<char>, Seq<ValueView>),
            ErrorKind,
        >((rest, seq![value])),
{
    let inner = before + text + after + closing() + rest;
    let valued = text + after + closing() + rest;
    let tail = after + closing() + rest;
    let closed = closing() + rest;
    lemma_value_start(valued);
    assert(inner =~= before + valued);
    assert(tail =~= after + closed);
    assert(closed[0] == ')');
    lemma_spaces_skipped(before, valued);
    lemma_spaces_skipped(after, closed);
    assert(spec_separator(tail) is Err) by {
        if double_bar().is_prefix_of(closed) {
            assert(double_bar()[0] == closed.subrange(0, 2)[0]);
        }
    }
    assert(spec_more_values(tail) == (tail, Seq::<ValueView>::empty()));
    assert(seq![value] + Seq::<ValueView>::empty() =~= seq![value]);
    assert(spec_values(valued) == Ok::<(Seq<char>, Seq<ValueView>), ErrorKind>(
        (tail, seq![value]),
    ));
    assert(spec_tag(closed, closing()) == Ok::<Seq<char>, ErrorKind>(rest)) by {
        assert(closed.subrange(0, 1) =~= closing());
        assert(closed.skip(1) =~= rest);
    }
}

/// The clause that a keyword and one value make. The keyword is that of a guild clause
/// or of a from clause, its letters in either case.
pub open spec fn clause_of(word: Seq<char>, value: ValueView) -> FilterView
    recommends
        is_keyword(word),
{
    if word.len() == guild_word().len() {
        FilterView::Guild(seq![value])
    } else {
        FilterView::From(seq![value])
    }
}

/// Whether `word` spells the keyword of a guild clause or of a from clause, with its
/// parenthesis, the case of its letters not counting.
pub open spec fn is_keyword(word: Seq<char>) -> bool {
    ||| word.len() == guild_word().len() && starts_caseless(word, guild_word())
    ||| word.len() == from_word().len() && starts_caseless(word, from_word())
}

/// A clause with one value is read as a clause of that value: a keyword, then a value
/// and the closing parenthesis, with any whitespace before and behind the value, is
/// the clause that holds the value under the kind of the keyword, and what follows the
/// parenthesis is left. The value is any text that is read as a value where the rest
/// follows it.
pub proof fn lemma_one_value_either(
    word: Seq<char>,
    before: Seq<char>,
    text: Seq<char>,
    after: Seq<char>,
    value: ValueView,
    rest: Seq<char>,
)
    requires
        is_keyword(word),
        forall|i: int| 0 <= i < before.len() ==> is_space(#[trigger] before[i]),
        forall|i: int| 0 <= i < after.len() ==> is_space(#[trigger] after[i]),
        spec_value(text + after + closing() + rest) == Ok::<(Seq<char>, ValueView), ErrorKind>(
            (after + closing() + rest, value),
        ),
    ensures
        spec_either(word + before + text + after + closing() + rest) == Ok::<
            (Seq<char>, FilterView),
            ErrorKind,
        >((rest, clause_of(word, value))),
        !is_space((word + before + text + after + closing() + rest)[0]),
{
    let s = word + before + text + after + closing() + rest;
    let inner = before + text + after + closing() + rest;
    assert(s =~= word + inner);
    assert(s[0] == word[0]);
    lemma_one_value_list(before, text, after, value, rest);
    if word.len() == guild_word().len() {
        assert(caseless(word[0]) == caseless(guild_word()[0]));
        lemma_keyword_read(word, guild_word(), inner);
    } else {
        assert(caseless(word[0]) == caseless(from_word()[0]));
        assert(!starts_caseless(s, guild_word())) by {
            assert(caseless(s[0]) != caseless(guild_word()[0]));
        }
        lemma_keyword_read(word, from_word(), inner);
    }
}

/// A clause with one value is the query of that value: a keyword, then a value and the
/// closing parenthesis, with any whitespace before and behind the value, is the query
/// that holds the value under the kind of the keyword, and nothing else.
pub proof fn lemma_one_value_clause(
    word: Seq<char>,
    before: Seq<char>,
    text: Seq<char>,
    after: Seq<char>,
    value: ValueView,
)
    requires
        is_keyword(word),
        forall|i: int| 0 <= i < before.len() ==> is_space(#[trigger] before[i]),
        forall|i: int| 0 <= i < after.len() ==> is_space(#[trigger] after[i]),
        spec_value(text + after + closing()) == Ok::<(Seq<char>, ValueView), ErrorKind>(
            (after + closing(), value),
        ),
    ensures
        spec_query(word + before + text + after + closing()) == Ok::<QueryView, ErrorKind>(
            merged(seq![clause_of(word, value)]),
        ),
        merged(seq![clause_of(word, value)]) == (if word.len() == guild_word().len() {
            QueryView { guild: seq![value], from: Seq::empty() }
        } else {
            QueryView { guild: Seq::empty(), from: seq![value] }
        }),
{
    let none = Seq::<char>::empty();
    let s = word + before + text + after + closing();
    assert(text + after + closing() + none =~= text + after + closing());
    assert(after + closing() + none =~= after + closing());
    assert(s + none =~= s);
    lemma_one_value_either(word, before, text, after, value, none);
    assert(skip_spaces(s) =~= s);
    assert(skip_spaces(none).len() == 0);
    assert(spec_query(none) == Ok::<QueryView, ErrorKind>(merged(Seq::empty())));
    lemma_first_clause(s);
    lemma_merged_empty();
    lemma_merged_one(clause_of(word, value));
    assert(spec_query(s)->Ok_0.guild =~= merged(seq![clause_of(word, value)]).guild);
    assert(spec_query(s)->Ok_0.from =~= merged(seq![clause_of(word, value)]).from);
}

/// One clause makes the query of its values.
pub proof fn lemma_merged_one(filter: FilterView)
    ensures
        merged(seq![filter]) == (QueryView { guild: filter.guild_part(), from: filter.from_part() }),
{
    lemma_merged_empty();
    assert(seq![filter] =~= Seq::<FilterView>::empty().push(filter));
    lemma_merged_push(Seq::<FilterView>::empty(), filter);
    assert(merged(seq![filter]).guild =~= filter.guild_part());
    assert(merged(seq![filter]).from =~= filter.from_part());
}

/// A clause before a query puts its value first: where a text is a query, a clause
/// with one value before it makes the query that holds, under the kind of the clause,
/// that value and then the values of the text, and under the other kind the values of
/// the text. So clauses of one kind add up in the order in which they stand.
pub proof fn lemma_clause_before_query(
    word: Seq<char>,
    before: Seq<char>,
    text: Seq<char>,
    after: Seq<char>,
    value: ValueView,
    rest: Seq<char>,
)
    requires
        is_keyword(word),
        forall|i: int| 0 <= i < before.len() ==> is_space(#[trigger] before[i]),
        forall|i: int| 0 <= i < after.len() ==> is_space(#[trigger] after[i]),
        spec_value(text + after + closing() + rest) == Ok::<(Seq<char>, ValueView), ErrorKind>(
            (after + closing() + rest, value),
        ),
        spec_query(rest) is Ok,
    ensures
        spec_query(word + before + text + after + closing() + rest) is Ok,
        spec_query(word + before + text + after + closing() + rest)->Ok_0.guild == clause_of(
            word,
            value,
        ).guild_part() + spec_query(rest)->Ok_0.guild,
        spec_query(word + before + text + after + closing() + rest)->Ok_0.from == clause_of(
            word,
            value,
        ).from_part() + spec_query(rest)->Ok_0.from,
{
    let s = word + before + text + after + closing() + rest;
    lemma_one_value_either(word, before, text, after, value, rest);
    assert(skip_spaces(s) =~= s);
    lemma_first_clause(s);
}

/// A clause that holds one quoted name is the query of that name: for a text of at
/// least one character that does not hold the quote, the keyword, the text between two
/// quotes and the closing parenthesis are the query that holds the name `text` under
/// the kind of the clause, and nothing else.
pub proof fn lemma_quoted_name_clause(word: Seq<char>, quote: char, text: Seq<char>)
    requires
        is_keyword(word),
        quote == '\'' || quote == '"',
        text.len() > 0,
        !text.contains(quote),
    ensures
        spec_query(word + seq![quote] + text + seq![quote] + closing()) == Ok::<
            QueryView,
            ErrorKind,
        >(
            if word.len() == guild_word().len() {
                QueryView { guild: seq![ValueView::Name(text)], from: Seq::empty() }
            } else {
                QueryView { guild: Seq::empty(), from: seq![ValueView::Name(text)] }
            },
        ),
{
    let none = Seq::<char>::empty();
    let written = seq![quote] + text + seq![quote];
    lemma_quoted_name(quote, text, closing());
    assert(written + none + closing() =~= written + closing());
    assert(none + closing() =~= closing());
    lemma_one_value_clause(word, none, written, none, ValueView::Name(text));
    assert(word + none + written + none + closing() =~= word + seq![quote] + text + seq![quote]
        + closing());
}

/// A clause that holds one unsigned number is the query of that identifier: for at
/// least one digit, writing a number that fits into 64 bits, the keyword, the digits
/// and the closing parenthesis are the query that holds the identifier of that number
/// under the kind of the clause, and nothing else.
pub proof fn lemma_unsigned_number_clause(word: Seq<char>, text: Seq<char>)
    requires
        is_keyword(word),
        text.len() > 0,
        forall|i: int| 0 <= i < text.len() ==> is_digit(#[trigger] text[i]),
        decimal(text) <= u64::MAX,
    ensures
        spec_query(word + text + closing()) == Ok::<QueryView, ErrorKind>(
            if word.len() == guild_word().len() {
                QueryView { guild: seq![ValueView::Id(decimal(text) as u64)], from: Seq::empty() }
            } else {
                QueryView { guild: Seq::empty(), from: seq![ValueView::Id(decimal(text) as u64)] }
            },
        ),
{
    let none = Seq::<char>::empty();
    assert(closing()[0] == ')');
    lemma_unsigned_number(text, closing());
    assert(text + none + closing() =~= text + closing());
    assert(none + closing() =~= closing());
    lemma_one_value_clause(word, none, text, none, ValueView::Id(decimal(text) as u64));
    assert(word + none + text + none + closing() =~= word + text + closing());
}

/// Whether `rest` is an end of `s`: what is left of `s` behind some of its characters.
pub open spec fn is_end_of(rest: Seq<char>, s: Seq<char>) -> bool {
    exists|k: int| 0 <= k <= s.len() && rest == #[trigger] s.skip(k)
}

/// An end of an end of a text is an end of the text.
pub proof fn lemma_end_of_end(rest: Seq<char>, middle: Seq<char>, s: Seq<char>)
    requires
        is_end_of(rest, middle),
        is_end_of(middle, s),
    ensures
        is_end_of(rest, s),
{
    let j = choose|j: int| 0 <= j <= s.len() && middle == #[trigger] s.skip(j);
    let k = choose|k: int| 0 <= k <= middle.len() && rest == #[trigger] middle.skip(k);
    assert(s.skip(j).skip(k) =~= s.skip(j + k));
}

/// A character of an end of a text is a character of the text.
pub proof fn lemma_end_holds(rest: Seq<char>, s: Seq<char>, c: char)
    requires
        is_end_of(rest, s),
        rest.contains(c),
    ensures
        s.contains(c),
{
    let k = choose|k: int| 0 <= k <= s.len() && rest == #[trigger] s.skip(k);
    let i = choose|i: int| 0 <= i < rest.len() && rest[i] == c;
    assert(s[k + i] == c);
}

/// What skipping whitespace leaves is an end of the text.
pub proof fn lemma_skip_spaces_end(s: Seq<char>)
    ensures
        is_end_of(skip_spaces(s), s),
{
    lemma_run_length_bound(s, spaces());
}

/// What a value leaves is an end of the text.
pub proof fn lemma_value_end(s: Seq<char>)
    requires
        spec_value(s) is Ok,
    ensures
        is_end_of(spec_value(s)->Ok_0.0, s),
{
    let rest = spec_value(s)->Ok_0.0;
    if spec_string(s) is Ok {
        let quote = if spec_quoted(s, '"') is Ok {
            '"'
        } else {
            '\''
        };
        let opened = s.skip(1);
        let n = run_length(opened, none_of(seq![quote])) as int;
        lemma_run_length_bound(opened, none_of(seq![quote]));
        assert(rest == opened.skip(n).skip(1));
        assert(opened.skip(n).skip(1) =~= s.skip(n + 2));
    } else {
        lemma_run_length_bound(s, digits());
    }
}

/// What a list of values leaves is an end of the text.
pub proof fn lemma_more_values_end(s: Seq<char>)
    ensures
        is_end_of(spec_more_values(s).0, s),
    decreases s.len(),
{
    assert(s.skip(0) =~= s);
    if let Ok(behind) = spec_separator(s) {
        if let Ok((rest, _)) = spec_value(behind) {
            let start = skip_spaces(s);
            let barred = start.skip(double_bar().len() as int);
            lemma_separator_shrinks(s);
            lemma_value_shrinks(behind);
            lemma_more_values_end(rest);
            lemma_value_end(behind);
            lemma_skip_spaces_end(barred);
            lemma_skip_spaces_end(s);
            assert(is_end_of(barred, start));
            lemma_end_of_end(barred, start, s);
            lemma_end_of_end(behind, barred, s);
            lemma_end_of_end(rest, behind, s);
            lemma_end_of_end(spec_more_values(rest).0, rest, s);
        }
    }
}

/// A clause holds its closing parenthesis.
pub proof fn lemma_clause_closes(s: Seq<char>)
    requires
        spec_either(s) is Ok,
    ensures
        s.contains(')'),
{
    let word = if spec_guild(s) is Ok {
        guild_word()
    } else {
        from_word()
    };
    let inner = s.skip(word.len() as int);
    let start = skip_spaces(inner);
    let (valued, first) = spec_value(start)->Ok_0;
    let listed = spec_more_values(valued).0;
    let last = skip_spaces(listed);
    assert(closing().is_prefix_of(last));
    assert(last[0] == closing()[0]);
    assert(last.contains(')'));
    lemma_skip_spaces_end(listed);
    lemma_more_values_end(valued);
    lemma_value_end(start);
    lemma_skip_spaces_end(inner);
    assert(is_end_of(inner, s));
    lemma_end_of_end(start, inner, s);
    lemma_end_of_end(valued, start, s);
    lemma_end_of_end(listed, valued, s);
    lemma_end_of_end(last, listed, s);
    lemma_end_holds(last, s, ')');
}

/// A run that takes a whole text takes characters of its class alone.
pub proof fn lemma_run_of_all(s: Seq<char>, within: spec_fn(char) -> bool)
    requires
        run_length(s, within) == s.len(),
    ensures
        forall|i: int| 0 <= i < s.len() ==> within(#[trigger] s[i]),
    decreases s.len(),
{
    if s.len() > 0 {
        lemma_run_length_bound(s.skip(1), within);
        lemma_run_of_all(s.skip(1), within);
        assert forall|i: int| 0 <= i < s.len() implies within(#[trigger] s[i]) by {
            if i > 0 {
                assert(s[i] == s.skip(1)[i - 1]);
            }
        }
    }
}

/// An unclosed clause is no query: a text that holds something else than whitespace,
/// and no closing parenthesis, is not a query.
pub proof fn lemma_unclosed_is_no_query(s: Seq<char>)
    requires
        exists|i: int| 0 <= i < s.len() && !is_space(#[trigger] s[i]),
        !s.contains(')'),
    ensures
        spec_query(s) is Err,
{
    let start = skip_spaces(s);
    lemma_run_length_bound(s, spaces());
    if start.len() == 0 {
        lemma_run_of_all(s, spaces());
        let i = choose|i: int| 0 <= i < s.len() && !is_space(#[trigger] s[i]);
        assert(spaces()(s[i]));
    }
    if spec_either(start) is Ok {
        lemma_clause_closes(start);
        lemma_skip_spaces_end(s);
        lemma_end_holds(start, s, ')');
    }
}

} // verus!
