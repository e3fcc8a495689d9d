use chat_query::backend::json::{is_same_guild, is_same_user, Data, FromJson, Guild, Row, User};
use chat_query::parser::parser::{Query, Value};
use chat_query::FromQuery;

fn row(guild: (u64, &str), message: &str, author: (u64, &str)) -> Row {
    Row {
        guild: Guild { id: guild.0, name: guild.1.to_string() },
        message: message.to_string(),
        author: User { id: author.0, username: author.1.to_string() },
    }
}

fn messages(data: &Data) -> Vec<&str> {
    data.0.iter().map(|row| row.message.as_str()).collect()
}

fn sample() -> Data {
    Data(vec![
        row((1, "rust"), "m0", (10, "ann")),
        row((2, "verus"), "m1", (11, "bob")),
        row((1, "rust"), "m2", (11, "bob")),
        row((3, "nom"), "m3", (12, "cy")),
        row((2, "verus"), "m4", (10, "ann")),
    ])
}

fn run(query: &str, data: Data) -> Data {
    FromJson::select(Query::from_str(query).unwrap(), data).unwrap()
}

#[test]
fn parse_json() {
    let row1 = Row {
        guild: Guild { id: 1234, name: "test".to_string() },
        message: "123".to_string(),
        author: User { id: 5678, username: "funlennysub".to_string() },
    };
    let row2 = Row {
        guild: Guild { id: 64773, name: "test1".to_string() },
        message: "1235".to_string(),
        author: User { id: 5678, username: "funlennysub".to_string() },
    };

    let json = Data(vec![row1, row2]);
    let from = FromJson::select(Query::from_str("guild(1234) from(5678)").unwrap(), json).unwrap();

    assert_eq!(2, from.0.len())
}

#[test]
fn one_row_by_guild_and_one_by_author() {
    let data = Data(vec![
        row((1234, "test"), "first", (1, "someone")),
        row((64773, "test1"), "second", (5678, "funlennysub")),
    ]);
    let out = run("guild(1234) from(5678)", data);
    assert_eq!(messages(&out), vec!["first", "second"]);
    assert_eq!(out.0[0].guild.id, 1234);
    assert_eq!(out.0[0].guild.name, "test");
    assert_eq!(out.0[0].author.id, 1);
    assert_eq!(out.0[0].author.username, "someone");
    assert_eq!(out.0[1].guild.id, 64773);
    assert_eq!(out.0[1].author.id, 5678);
}

#[test]
fn blank_query_selects_everything() {
    assert_eq!(messages(&run("", sample())), vec!["m0", "m1", "m2", "m3", "m4"]);
    assert_eq!(messages(&run("  \n ", sample())), vec!["m0", "m1", "m2", "m3", "m4"]);
    assert_eq!(run("", Data(vec![])).0.len(), 0);
}

#[test]
fn unknown_guild_or_author_selects_nothing() {
    assert_eq!(run("guild(99)", sample()).0.len(), 0);
    assert_eq!(run("from(99)", sample()).0.len(), 0);
    assert_eq!(run("guild('python') from('dan' || 13)", sample()).0.len(), 0);
    assert_eq!(run("guild(1)", Data(vec![])).0.len(), 0);
}

#[test]
fn row_matching_both_kinds_is_kept_once() {
    let out = run("from(11) guild(1)", sample());
    assert_eq!(messages(&out), vec!["m0", "m1", "m2"]);
    let out = run("guild(1) guild('rust') from(11 || 'bob' || 11)", sample());
    assert_eq!(messages(&out), vec!["m0", "m1", "m2"]);
}

#[test]
fn rows_stay_in_their_order() {
    assert_eq!(messages(&run("guild(2 || 1)", sample())), vec!["m0", "m1", "m2", "m4"]);
    assert_eq!(messages(&run("from('cy') from('ann')", sample())), vec!["m0", "m3", "m4"]);
}

#[test]
fn equal_rows_are_each_kept() {
    let data = Data(vec![
        row((1, "g"), "same", (2, "u")),
        row((5, "h"), "other", (6, "v")),
        row((1, "g"), "same", (2, "u")),
    ]);
    assert_eq!(messages(&run("guild(1) from(2)", data)), vec!["same", "same"]);
}

#[test]
fn names_match_names_and_numbers_match_identifiers() {
    let data = Data(vec![
        row((1, "2"), "m0", (3, "4")),
        row((2, "1"), "m1", (4, "3")),
    ]);
    assert_eq!(messages(&run("guild(1)", Data(data.0.clone()))), vec!["m0"]);
    assert_eq!(messages(&run("guild('1')", Data(data.0.clone()))), vec!["m1"]);
    assert_eq!(messages(&run("from(4)", Data(data.0.clone()))), vec!["m1"]);
    assert_eq!(messages(&run("from('4')", Data(data.0.clone()))), vec!["m0"]);
}

#[test]
fn guild_values_do_not_match_authors() {
    let data = Data(vec![row((1, "g"), "m0", (2, "u"))]);
    assert_eq!(run("guild(2)", Data(data.0.clone())).0.len(), 0);
    assert_eq!(run("guild('u')", Data(data.0.clone())).0.len(), 0);
    assert_eq!(run("from(1)", Data(data.0.clone())).0.len(), 0);
    assert_eq!(run("from('g')", Data(data.0.clone())).0.len(), 0);
}

#[test]
fn names_match_exactly() {
    let data = Data(vec![row((1, "Rust"), "m0", (2, "Ann"))]);
    assert_eq!(run("guild('rust')", Data(data.0.clone())).0.len(), 0);
    assert_eq!(run("guild('Rus')", Data(data.0.clone())).0.len(), 0);
    assert_eq!(run("guild('Rust ')", Data(data.0.clone())).0.len(), 0);
    assert_eq!(run("from('ann')", Data(data.0.clone())).0.len(), 0);
    assert_eq!(run("guild('Rust')", Data(data.0.clone())).0.len(), 1);
    assert_eq!(run("from(\"Ann\")", Data(data.0.clone())).0.len(), 1);
}

#[test]
fn same_user_and_same_guild() {
    let user = User { id: 7, username: "ann".to_string() };
    let guild = Guild { id: 8, name: "rust".to_string() };
    assert!(is_same_user(&user, &Value::Id(7)));
    assert!(!is_same_user(&user, &Value::Id(8)));
    assert!(is_same_user(&user, &Value::Name("ann".to_string())));
    assert!(!is_same_user(&user, &Value::Name("7".to_string())));
    assert!(is_same_guild(&guild, &Value::Id(8)));
    assert!(!is_same_guild(&guild, &Value::Id(7)));
    assert!(is_same_guild(&guild, &Value::Name("rust".to_string())));
    assert!(!is_same_guild(&guild, &Value::Name("ann".to_string())));
}

#[test]
fn select_takes_a_query_built_by_hand() {
    let query = Query { guild: vec![Value::Id(3)], from: vec![Value::Name("bob".to_string())] };
    let out = FromJson::select(query, sample()).unwrap();
    assert_eq!(messages(&out), vec!["m1", "m2", "m3"]);
}

#[test]
fn copies_keep_every_field() {
    let first = row((1, "g"), "text", (2, "u"));
    let copy = first.clone();
    assert_eq!(copy.guild.id, 1);
    assert_eq!(copy.guild.name, "g");
    assert_eq!(copy.message, "text");
    assert_eq!(copy.author.id, 2);
    assert_eq!(copy.author.username, "u");
}
