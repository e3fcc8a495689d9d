use vstd::prelude::*;

use crate::parser::parser::{Query, QueryView, Value, ValueView};
use crate::FromQuery;

verus! {

/// The backend whose records are the rows of a JSON document.
pub struct FromJson;

/// The guild a message was sent in.
#[derive(Debug)]
pub struct Guild {
    pub id: u64,
    pub name: String,
}

/// The user who sent a message.
#[derive(Debug)]
pub struct User {
    pub id: u64,
    pub username: String,
}

/// One record: a message with its guild and its author.
#[derive(Debug)]
pub struct Row {
    pub guild: Guild,
    pub message: String,
    pub author: User,
}

/// The records of a document, in the document's order.
#[derive(Debug)]
pub struct Data(pub Vec<Row>);

/// What a [`Guild`] stands for.
pub struct GuildView {
    pub id: u64,
    pub name: Seq<char>,
}

/// What a [`User`] stands for.
pub struct UserView {
    pub id: u64,
    pub username: Seq<char>,
}

/// What a [`Row`] stands for.
pub struct RowView {
    pub guild: GuildView,
    pub message: Seq<char>,
    pub author: UserView,
}

impl View for Guild {
    type V = GuildView;

    open spec fn view(&self) -> GuildView {
        GuildView { id: self.id, name: self.name@ }
    }
}

impl View for User {
    type V = UserView;

    open spec fn view(&self) -> UserView {
        UserView { id: self.id, username: self.username@ }
    }
}

impl View for Row {
    type V = RowView;

    open spec fn view(&self) -> RowView {
        RowView { guild: self.guild@, message: self.message@, author: self.author@ }
    }
}

impl View for Data {
    type V = Seq<RowView>;

    open spec fn view(&self) -> Seq<RowView> {
        self.0@.map_values(|row: Row| row@)
    }
}

impl Clone for Guild {
    fn clone(&self) -> (res: Self)
        ensures
            res == *self,
    {
        Guild { id: self.id, name: self.name.clone() }
    }
}

impl Clone for User {
    fn clone(&self) -> (res: Self)
        ensures
            res == *self,
    {
        User { id: self.id, username: self.username.clone() }
    }
}

impl Clone for Row {
    fn clone(&self) -> (res: Self)
        ensures
            res == *self,
    {
        Row { guild: self.guild.clone(), message: self.message.clone(), author: self.author.clone() }
    }
}

/// Whether `value` names `user`: a name by the user's name, a number by the user's
/// identifier.
pub open spec fn same_user(user: UserView, value: ValueView) -> bool {
    match value {
        ValueView::Name(n) => user.username == n,
        ValueView::Id(id) => user.id == id,
    }
}

/// Whether `value` names `guild`: a name by the guild's name, a number by the guild's
/// identifier.
pub open spec fn same_guild(guild: GuildView, value: ValueView) -> bool {
    match value {
        ValueView::Name(n) => guild.name == n,
        ValueView::Id(id) => guild.id == id,
    }
}

/// Whether some value of `values` names `user`.
pub open spec fn names_user(values: Seq<ValueView>, user: UserView) -> bool {
    exists|i: int| 0 <= i < values.len() && same_user(user, #[trigger] values[i])
}

/// Whether some value of `values` names `guild`.
pub open spec fn names_guild(values: Seq<ValueView>, guild: GuildView) -> bool {
    exists|i: int| 0 <= i < values.len() && same_guild(guild, #[trigger] values[i])
}

/// Whether `query` keeps `row`: one of its `from` values names the author, or one of its
/// `guild` values names the guild.
pub open spec fn keeps(query: QueryView, row: RowView) -> bool {
    names_user(query.from, row.author) || names_guild(query.guild, row.guild)
}

/// The rows that `query` selects from `rows`: all of them where the query is blank, else
/// those that it keeps, in their order, each as often as it stands in `rows`.
pub open spec fn selected(query: QueryView, rows: Seq<RowView>) -> Seq<RowView> {
    if query.is_blank() {
        rows
    } else {
        rows.filter(|row: RowView| keeps(query, row))
    }
}

/// Whether `value` names `user`.
pub fn is_same_user(user: &User, value: &Value) -> (res: bool)
    ensures
        res == same_user(user@, value@),
{
    match value {
        Value::Name(n) => user.username == *n,
        Value::Id(id) => user.id == *id,
    }
}

/// Whether `value` names `guild`.
pub fn is_same_guild(guild: &Guild, value: &Value) -> (res: bool)
    ensures
        res == same_guild(guild@, value@),
{
    match value {
        Value::Name(n) => guild.name == *n,
        Value::Id(id) => guild.id == *id,
    }
}

/// Whether one of `values` names `user`.
fn any_same_user(user: &User, values: &Vec<Value>) -> (res: bool)
    ensures
        res == names_user(values.deep_view(), user@),
{
    let mut i: usize = 0;
    while i < values.len()
        invariant
            i <= values.len(),
            forall|k: int| 0 <= k < i ==> !same_user(user@, #[trigger] values.deep_view()[k]),
        decreases values.len() - i,
    {
        if is_same_user(user, &values[i]) {
            assert(same_user(user@, values.deep_view()[i as int]));
            return true;
        }
        i += 1;
    }
    false
}

/// Whether one of `values` names `guild`.
fn any_same_guild(guild: &Guild, values: &Vec<Value>) -> (res: bool)
    ensures
        res == names_guild(values.deep_view(), guild@),
{
    let mut i: usize = 0;
    while i < values.len()
        invariant
            i <= values.len(),
            forall|k: int| 0 <= k < i ==> !same_guild(guild@, #[trigger] values.deep_view()[k]),
        decreases values.len() - i,
    {
        if is_same_guild(guild, &values[i]) {
            assert(same_guild(guild@, values.deep_view()[i as int]));
            return true;
        }
        i += 1;
    }
    false
}

impl FromQuery for FromJson {
    type Source = Data;

    type Output = Data;

    type Error = Error;

    /// The rows of `source` that `query` selects. Selecting from rows at hand never fails.
    fn select(query: Query, source: Data) -> (res: Result<Data, Error>)
        ensures
            res is Ok,
            res->Ok_0@ == selected(query@, source@),
    {
        if query.from.is_empty() && query.guild.is_empty() {
            return Ok(source);
        }
        let ghost keep = |row: RowView| keeps(query@, row);
        let mut kept: Vec<Row> = Vec::new();
        let mut i: usize = 0;
        while i < source.0.len()
            invariant
                i <= source.0.len(),
                keep == |row: RowView| keeps(query@, row),
                kept@.map_values(|row: Row| row@) == source@.take(i as int).filter(keep),
            decreases source.0.len() - i,
        {
            let row = &source.0[i];
            proof {
                assert(source@.take(i as int + 1) =~= source@.take(i as int).push(row@));
                source@.take(i as int).lemma_filter_push(row@, keep);
            }
            let ghost before = kept@;
            if any_same_user(&row.author, &query.from) || any_same_guild(&row.guild, &query.guild) {
                kept.push(row.clone());
                assert(kept@.map_values(|row: Row| row@) =~= before.map_values(
                    |row: Row| row@,
                ).push(row@));
            }
            i += 1;
        }
        assert(source@.take(source.0.len() as int) =~= source@);
        Ok(Data(kept))
    }
}

/// What can go wrong with a source of records. Each kind carries the report of what
/// failed.
#[derive(Debug)]
pub enum Error {
    /// The document is not a list of records.
    SerdeJson(String),
    /// The document could not be read.
    Io(String),
}

} // verus!
