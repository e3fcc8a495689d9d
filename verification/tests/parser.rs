use chat_query::parser::error::Error;
use chat_query::parser::parser::{
    either, parse_double_quotes, parse_from, parse_guild, parse_list, parse_number, parse_query,
    parse_single_quotes, parse_string, parse_value, parse_values, Filter, Query, Value,
};
use nom::error::ErrorKind;

fn name(text: &str) -> Value {
    Value::Name(String::from(text))
}

#[test]
fn single_quotes() {
    assert_eq!(parse_single_quotes("'abc'"), Ok(("", name("abc"))));
    assert_eq!(parse_single_quotes("'123'"), Ok(("", name("123"))));
    assert_eq!(parse_single_quotes("'va\"la'"), Ok(("", name("va\"la"))));
}

#[test]
fn double_quotes() {
    assert_eq!(parse_double_quotes("\"abc\""), Ok(("", name("abc"))));
    assert_eq!(parse_double_quotes("\"123\""), Ok(("", name("123"))));
    assert_eq!(parse_double_quotes("\"va'la\""), Ok(("", name("va'la"))));
}

#[test]
fn string() {
    assert_eq!(parse_string("\"hello world\""), Ok(("", name("hello world"))));
    assert_eq!(parse_string("'hello world'"), Ok(("", name("hello world"))));
}

#[test]
fn number() {
    assert_eq!(parse_number("123"), Ok(("", Value::Id(123))));
}

#[test]
fn quoted_name_leaves_what_follows() {
    assert_eq!(parse_single_quotes("'abc' || 1"), Ok((" || 1", name("abc"))));
    assert_eq!(parse_double_quotes("\"a\"\"b\""), Ok(("\"b\"", name("a"))));
}

#[test]
fn quoted_name_keeps_other_text_as_it_is() {
    assert_eq!(parse_string("' a\tb '"), Ok(("", name(" a\tb "))));
    assert_eq!(parse_string("'h\u{e9}llo \u{212a}'x"), Ok(("x", name("h\u{e9}llo \u{212a}"))));
    assert_eq!(parse_string("\"GuIlD(\""), Ok(("", name("GuIlD("))));
}

#[test]
fn quoted_name_failures() {
    assert_eq!(parse_single_quotes("abc'"), Err(ErrorKind::Char));
    assert_eq!(parse_single_quotes(""), Err(ErrorKind::Char));
    assert_eq!(parse_single_quotes("\"abc\""), Err(ErrorKind::Char));
    assert_eq!(parse_single_quotes("''"), Err(ErrorKind::IsNot));
    assert_eq!(parse_single_quotes("'"), Err(ErrorKind::IsNot));
    assert_eq!(parse_single_quotes("'abc"), Err(ErrorKind::Char));
    assert_eq!(parse_double_quotes("'abc'"), Err(ErrorKind::Char));
    assert_eq!(parse_double_quotes("\"\""), Err(ErrorKind::IsNot));
    assert_eq!(parse_double_quotes("\"abc"), Err(ErrorKind::Char));
    assert_eq!(parse_string("abc"), Err(ErrorKind::Char));
    assert_eq!(parse_string("\"abc'"), Err(ErrorKind::Char));
}

#[test]
fn number_values() {
    assert_eq!(parse_number("0"), Ok(("", Value::Id(0))));
    assert_eq!(parse_number("007"), Ok(("", Value::Id(7))));
    assert_eq!(parse_number("1234)"), Ok((")", Value::Id(1234))));
    assert_eq!(
        parse_number("18446744073709551615"),
        Ok(("", Value::Id(18446744073709551615)))
    );
    assert_eq!(
        parse_number("00018446744073709551615 "),
        Ok((" ", Value::Id(u64::MAX)))
    );
}

#[test]
fn number_reads_only_the_digits() {
    assert_eq!(parse_number("12abc"), Ok(("abc", Value::Id(12))));
    assert_eq!(parse_number("12abc23"), Ok(("abc23", Value::Id(12))));
    assert_eq!(parse_number("1.5"), Ok((".5", Value::Id(1))));
    assert_eq!(parse_number("4\u{663}"), Ok(("\u{663}", Value::Id(4))));
}

#[test]
fn number_failures() {
    assert_eq!(parse_number(""), Err(ErrorKind::Digit));
    assert_eq!(parse_number("abc"), Err(ErrorKind::Digit));
    assert_eq!(parse_number("-1"), Err(ErrorKind::Digit));
    assert_eq!(parse_number("+1"), Err(ErrorKind::Digit));
    assert_eq!(parse_number(" 1"), Err(ErrorKind::Digit));
    assert_eq!(parse_number("18446744073709551616"), Err(ErrorKind::Digit));
    assert_eq!(parse_number("99999999999999999999999"), Err(ErrorKind::Digit));
}

#[test]
fn value_is_a_name_or_an_identifier() {
    assert_eq!(parse_value("'7'"), Ok(("", name("7"))));
    assert_eq!(parse_value("7"), Ok(("", Value::Id(7))));
    assert_eq!(parse_value("\"x\"7"), Ok(("7", name("x"))));
    assert_eq!(parse_value("x"), Err(ErrorKind::Digit));
    assert_eq!(parse_value("'x"), Err(ErrorKind::Digit));
    assert_eq!(parse_value(""), Err(ErrorKind::Digit));
}

#[test]
fn values_in_the_order_written() {
    assert_eq!(parse_values("1"), Ok(("", vec![Value::Id(1)])));
    assert_eq!(
        parse_values("1||'a'||\"b\"||2"),
        Ok(("", vec![Value::Id(1), name("a"), name("b"), Value::Id(2)]))
    );
    assert_eq!(
        parse_values("3 \t||\r\n 2  ||1)"),
        Ok((")", vec![Value::Id(3), Value::Id(2), Value::Id(1)]))
    );
}

#[test]
fn values_leave_a_separator_that_no_value_follows() {
    assert_eq!(parse_values("1 || )"), Ok((" || )", vec![Value::Id(1)])));
    assert_eq!(parse_values("1||2||"), Ok(("||", vec![Value::Id(1), Value::Id(2)])));
    assert_eq!(parse_values("1 | 2"), Ok((" | 2", vec![Value::Id(1)])));
    assert_eq!(parse_values("1 2"), Ok((" 2", vec![Value::Id(1)])));
}

#[test]
fn values_need_a_first_value() {
    assert_eq!(parse_values(""), Err(ErrorKind::Digit));
    assert_eq!(parse_values("||1"), Err(ErrorKind::Digit));
    assert_eq!(parse_values(" 1"), Err(ErrorKind::Digit));
}

#[test]
fn list_with_whitespace_and_closing_parenthesis() {
    assert_eq!(parse_list("1)"), Ok(("", vec![Value::Id(1)])));
    assert_eq!(parse_list("  1 || 'a'  ) x"), Ok((" x", vec![Value::Id(1), name("a")])));
    assert_eq!(parse_list(")"), Err(ErrorKind::Digit));
    assert_eq!(parse_list("  )"), Err(ErrorKind::Digit));
    assert_eq!(parse_list("1"), Err(ErrorKind::Tag));
    assert_eq!(parse_list("1 || )"), Err(ErrorKind::Tag));
    assert_eq!(parse_list("12abc)"), Err(ErrorKind::Tag));
}

#[test]
fn guild_clause() {
    assert_eq!(parse_guild("guild(1234)"), Ok(("", Filter::Guild(vec![Value::Id(1234)]))));
    assert_eq!(
        parse_guild("guild( 'a' || 2 ) from(3)"),
        Ok((" from(3)", Filter::Guild(vec![name("a"), Value::Id(2)])))
    );
    assert_eq!(parse_guild("from(1)"), Err(ErrorKind::Tag));
    assert_eq!(parse_guild(" guild(1)"), Err(ErrorKind::Tag));
    assert_eq!(parse_guild("guild (1)"), Err(ErrorKind::Tag));
    assert_eq!(parse_guild("guild("), Err(ErrorKind::Digit));
    assert_eq!(parse_guild("guild()"), Err(ErrorKind::Digit));
    assert_eq!(parse_guild("guild(1"), Err(ErrorKind::Tag));
}

#[test]
fn from_clause() {
    assert_eq!(parse_from("from(5678)"), Ok(("", Filter::From(vec![Value::Id(5678)]))));
    assert_eq!(
        parse_from("from(\"funlennysub\"||'x')guild(1)"),
        Ok(("guild(1)", Filter::From(vec![name("funlennysub"), name("x")])))
    );
    assert_eq!(parse_from("guild(1)"), Err(ErrorKind::Tag));
    assert_eq!(parse_from("from"), Err(ErrorKind::Tag));
    assert_eq!(parse_from("from()"), Err(ErrorKind::Digit));
}

#[test]
fn keyword_in_either_case() {
    assert_eq!(parse_guild("GUILD(1)"), Ok(("", Filter::Guild(vec![Value::Id(1)]))));
    assert_eq!(parse_guild("GuIlD(1)"), Ok(("", Filter::Guild(vec![Value::Id(1)]))));
    assert_eq!(parse_from("FROM(1)"), Ok(("", Filter::From(vec![Value::Id(1)]))));
    assert_eq!(parse_from("fRoM(1)"), Ok(("", Filter::From(vec![Value::Id(1)]))));
}

#[test]
fn keyword_of_other_characters() {
    assert_eq!(parse_guild("gu\u{131}ld(1)"), Err(ErrorKind::Tag));
    assert_eq!(parse_guild("gu\u{130}ld(1)"), Err(ErrorKind::Tag));
    assert_eq!(parse_guild("\u{ff47}uild(1)"), Err(ErrorKind::Tag));
    assert_eq!(parse_guild("guil\u{e9}"), Err(ErrorKind::Tag));
    assert_eq!(parse_guild("guild\u{ff08}1)"), Err(ErrorKind::Tag));
    assert_eq!(parse_from("fr\u{f6}m(1)"), Err(ErrorKind::Tag));
    assert_eq!(parse_from("from\u{e9}"), Err(ErrorKind::Tag));
    assert_eq!(parse_from("\u{e9}"), Err(ErrorKind::Tag));
    assert_eq!(parse_guild("guild{1)"), Err(ErrorKind::Tag));
    assert_eq!(parse_guild("guild"), Err(ErrorKind::Tag));
    assert_eq!(parse_guild(""), Err(ErrorKind::Tag));
}

#[test]
fn keyword_before_other_characters() {
    assert_eq!(
        parse_guild("guild('\u{e9}t\u{e9}')"),
        Ok(("", Filter::Guild(vec![name("\u{e9}t\u{e9}")])))
    );
    assert_eq!(parse_from("from(1)\u{e9}"), Ok(("\u{e9}", Filter::From(vec![Value::Id(1)]))));
}

#[test]
fn either_clause() {
    assert_eq!(either("guild(1)"), Ok(("", Filter::Guild(vec![Value::Id(1)]))));
    assert_eq!(either("from(1)"), Ok(("", Filter::From(vec![Value::Id(1)]))));
    assert_eq!(either("guild("), Err(ErrorKind::Tag));
    assert_eq!(either("from("), Err(ErrorKind::Digit));
    assert_eq!(either("to(1)"), Err(ErrorKind::Tag));
}

#[test]
fn query_clauses_in_their_order() {
    assert_eq!(parse_query(""), Ok(("", vec![])));
    assert_eq!(parse_query(" \t\r\n"), Ok(("", vec![])));
    assert_eq!(
        parse_query("from(1) guild(2)from(3)"),
        Ok((
            "",
            vec![
                Filter::From(vec![Value::Id(1)]),
                Filter::Guild(vec![Value::Id(2)]),
                Filter::From(vec![Value::Id(3)]),
            ]
        ))
    );
    assert_eq!(
        parse_query("  guild(1)\n"),
        Ok(("", vec![Filter::Guild(vec![Value::Id(1)])]))
    );
}

#[test]
fn query_with_anything_else_fails() {
    assert_eq!(parse_query("guild(1) x"), Err(ErrorKind::Tag));
    assert_eq!(parse_query("x"), Err(ErrorKind::Tag));
    assert_eq!(parse_query("guild(1) from("), Err(ErrorKind::Digit));
    assert_eq!(parse_query("guild(12abc)"), Err(ErrorKind::Tag));
    assert_eq!(parse_query("guild(1))"), Err(ErrorKind::Tag));
    assert_eq!(parse_query("guild(1) \u{e9}"), Err(ErrorKind::Tag));
}

#[test]
fn from_str_reads_both_kinds() {
    let query = Query::from_str("guild(1234) from(5678)").unwrap();
    assert_eq!(query.guild, vec![Value::Id(1234)]);
    assert_eq!(query.from, vec![Value::Id(5678)]);
}

#[test]
fn from_str_without_clauses_is_blank() {
    let query = Query::from_str("").unwrap();
    assert!(query.guild.is_empty());
    assert!(query.from.is_empty());
    let query = Query::from_str("  \n\t ").unwrap();
    assert!(query.guild.is_empty());
    assert!(query.from.is_empty());
}

#[test]
fn from_str_merges_clauses_of_one_kind() {
    let query = Query::from_str("guild(1) guild(2)").unwrap();
    assert_eq!(query.guild, vec![Value::Id(1), Value::Id(2)]);
    assert!(query.from.is_empty());
}

#[test]
fn from_str_merges_whatever_the_order_of_kinds() {
    let query = Query::from_str("from('a'||1) guild(2) FROM(\"b\") guild(3 || 'c') from(4)").unwrap();
    assert_eq!(query.guild, vec![Value::Id(2), Value::Id(3), name("c")]);
    assert_eq!(query.from, vec![name("a"), Value::Id(1), name("b"), Value::Id(4)]);
}

#[test]
fn from_str_keeps_repeated_values() {
    let query = Query::from_str("guild(1||1) guild(1)").unwrap();
    assert_eq!(query.guild, vec![Value::Id(1), Value::Id(1), Value::Id(1)]);
}

#[test]
fn from_str_unterminated_clause_fails() {
    assert!(matches!(Query::from_str("guild("), Err(Error::Failed(ErrorKind::Tag))));
    assert!(matches!(Query::from_str("from("), Err(Error::Failed(ErrorKind::Digit))));
    assert!(matches!(Query::from_str("guild(1"), Err(Error::Failed(ErrorKind::Tag))));
    assert!(matches!(Query::from_str("from('a"), Err(Error::Failed(ErrorKind::Digit))));
}

#[test]
fn from_str_malformed_input_fails() {
    assert!(Query::from_str("guild()").is_err());
    assert!(Query::from_str("guild(1) from()").is_err());
    assert!(Query::from_str("guild(1) and from(2)").is_err());
    assert!(Query::from_str("guild(1 2)").is_err());
    assert!(Query::from_str("guild(1||)").is_err());
    assert!(Query::from_str("guild(-1)").is_err());
    assert!(Query::from_str("guild(1.5)").is_err());
    assert!(Query::from_str("guild(123abc)").is_err());
    assert!(Query::from_str("guild(18446744073709551616)").is_err());
    assert!(Query::from_str("guild('')").is_err());
    assert!(Query::from_str("1234").is_err());
    assert!(Query::from_str("guild 1").is_err());
}

#[test]
fn filter_parts() {
    let guild = Filter::Guild(vec![Value::Id(1), name("a")]);
    let from = Filter::From(vec![name("b")]);
    assert_eq!(Filter::is_guild(&guild), Some(vec![Value::Id(1), name("a")]));
    assert_eq!(Filter::is_from(&guild), None);
    assert_eq!(Filter::is_guild(&from), None);
    assert_eq!(Filter::is_from(&from), Some(vec![name("b")]));
}

#[test]
fn copies_are_equal() {
    let value = name("a");
    assert_eq!(value.clone(), value);
    let filter = Filter::From(vec![Value::Id(1), name("b")]);
    assert_eq!(filter.clone(), filter);
}

#[test]
fn from_str_one_value_clause() {
    let query = Query::from_str("GuIlD( \t'a b'\n)").unwrap();
    assert_eq!(query.guild, vec![name("a b")]);
    assert!(query.from.is_empty());
    let query = Query::from_str("From(\"it's\")").unwrap();
    assert!(query.guild.is_empty());
    assert_eq!(query.from, vec![name("it's")]);
    let query = Query::from_str("from(0042)").unwrap();
    assert!(query.guild.is_empty());
    assert_eq!(query.from, vec![Value::Id(42)]);
    let query = Query::from_str("guild(18446744073709551615)").unwrap();
    assert_eq!(query.guild, vec![Value::Id(u64::MAX)]);
}

#[test]
fn from_str_without_closing_parenthesis_fails() {
    assert!(Query::from_str("guild(1 from(2").is_err());
    assert!(Query::from_str("guild('a' || 2").is_err());
    assert!(Query::from_str("x").is_err());
    assert!(Query::from_str(" guild").is_err());
}
