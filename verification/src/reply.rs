//! What requests are answered: a status and an object, or a stream of objects.

use crate::text::{first_chars, texts};
use vstd::prelude::*;

verus! {

/// A value in an object, over texts `T` and lists of texts `L`.
pub enum ValueOf<T, L> {
    Null,
    Flag(bool),
    Count(u64),
    Text(T),
    Texts(L),
}

pub type Value = ValueOf<String, Vec<String>>;

pub type ValueModel = ValueOf<Seq<char>, Seq<Seq<char>>>;

impl View for ValueOf<String, Vec<String>> {
    type V = ValueModel;

    open spec fn view(&self) -> ValueModel {
        match *self {
            ValueOf::Null => ValueOf::Null,
            ValueOf::Flag(b) => ValueOf::Flag(b),
            ValueOf::Count(n) => ValueOf::Count(n),
            ValueOf::Text(s) => ValueOf::Text(s@),
            ValueOf::Texts(v) => ValueOf::Texts(texts(v@)),
        }
    }
}

/// A member of an object.
pub struct Field {
    pub key: String,
    pub value: Value,
}

/// The mathematical content of a member.
pub struct Member {
    pub key: Seq<char>,
    pub value: ValueModel,
}

impl View for Field {
    type V = Member;

    open spec fn view(&self) -> Member {
        Member { key: self.key@, value: self.value@ }
    }
}

/// The members that an object has.
pub open spec fn members(v: Seq<Field>) -> Seq<Member> {
    v.map_values(|f: Field| f@)
}

/// The answer to a request.
pub struct Reply {
    pub status: u16,
    pub body: Vec<Field>,
}

/// The mathematical content of an answer.
#[verifier::ext_equal]
pub struct Answer {
    pub status: u16,
    pub body: Seq<Member>,
}

impl View for Reply {
    type V = Answer;

    open spec fn view(&self) -> Answer {
        Answer { status: self.status, body: members(self.body@) }
    }
}

pub open spec fn text_member(key: Seq<char>, value: Seq<char>) -> Member {
    Member { key, value: ValueOf::Text(value) }
}

pub open spec fn texts_member(key: Seq<char>, value: Seq<Seq<char>>) -> Member {
    Member { key, value: ValueOf::Texts(value) }
}

pub open spec fn flag_member(key: Seq<char>, value: bool) -> Member {
    Member { key, value: ValueOf::Flag(value) }
}

pub open spec fn count_member(key: Seq<char>, value: u64) -> Member {
    Member { key, value: ValueOf::Count(value) }
}

/// A request that fails is answered with what went wrong.
pub open spec fn refusal(status: u16, why: Seq<char>) -> Answer {
    Answer { status, body: seq![text_member("error"@, why)] }
}

/// A stream that fails ends with what went wrong.
pub open spec fn broken(why: Seq<char>) -> Seq<Member> {
    seq![text_member("type"@, "error"@), text_member("error"@, why)]
}

pub fn text_field(key: &str, value: String) -> (f: Field)
    ensures
        f@ == text_member(key@, value@),
{
    Field { key: key.to_owned(), value: ValueOf::Text(value) }
}

pub fn texts_field(key: &str, value: Vec<String>) -> (f: Field)
    ensures
        f@ == texts_member(key@, texts(value@)),
{
    Field { key: key.to_owned(), value: ValueOf::Texts(value) }
}

pub fn flag_field(key: &str, value: bool) -> (f: Field)
    ensures
        f@ == flag_member(key@, value),
{
    Field { key: key.to_owned(), value: ValueOf::Flag(value) }
}

pub fn count_field(key: &str, value: u64) -> (f: Field)
    ensures
        f@ == count_member(key@, value),
{
    Field { key: key.to_owned(), value: ValueOf::Count(value) }
}

/// An object with one member.
pub fn one(a: Field) -> (v: Vec<Field>)
    ensures
        members(v@) == seq![a@],
{
    let v: Vec<Field> = vec![a];
    assert(members(v@) =~= seq![a@]);
    v
}

/// An object with one member more.
pub fn also(v: Vec<Field>, a: Field) -> (r: Vec<Field>)
    ensures
        members(r@) == members(v@).push(a@),
{
    let mut r = v;
    r.push(a);
    assert(members(r@) =~= members(v@).push(a@));
    r
}

/// An object with two members.
pub fn two(a: Field, b: Field) -> (v: Vec<Field>)
    ensures
        members(v@) == seq![a@, b@],
{
    let v = also(one(a), b);
    assert(members(v@) =~= seq![a@, b@]);
    v
}

/// An object with three members.
pub fn three(a: Field, b: Field, c: Field) -> (v: Vec<Field>)
    ensures
        members(v@) == seq![a@, b@, c@],
{
    let v = also(two(a, b), c);
    assert(members(v@) =~= seq![a@, b@, c@]);
    v
}

/// An object with four members.
pub fn four(a: Field, b: Field, c: Field, d: Field) -> (v: Vec<Field>)
    ensures
        members(v@) == seq![a@, b@, c@, d@],
{
    let v = also(three(a, b, c), d);
    assert(members(v@) =~= seq![a@, b@, c@, d@]);
    v
}

/// The answer to a request that fails.
pub fn refuse(status: u16, why: String) -> (r: Reply)
    ensures
        r@ == refusal(status, why@),
{
    Reply { status, body: one(text_field("error", why)) }
}

/// The end of a stream that fails.
pub fn break_off(why: String) -> (v: Vec<Field>)
    ensures
        members(v@) == broken(why@),
{
    two(text_field("type", "error".to_owned()), text_field("error", why))
}

/// What an agent says while it works.
pub enum AgentNews {
    ToolCall { name: String, arguments: String },
    Message(String),
    Error(String),
    Other,
}

/// `s`, cut off after its first `n` characters.
pub open spec fn cut(s: Seq<char>, n: nat) -> Seq<char> {
    if s.len() <= n {
        s
    } else {
        s.take(n as int)
    }
}

/// What is passed on of the news: tools with the first eighty characters of what they are given,
/// messages and errors.
pub open spec fn news_object(news: AgentNews) -> Option<Seq<Member>> {
    match news {
        AgentNews::ToolCall { name, arguments } => Some(
            seq![
                text_member("type"@, "tool_call"@),
                text_member("name"@, name@),
                text_member("detail"@, cut(arguments@, 80)),
            ],
        ),
        AgentNews::Message(text) => Some(
            seq![text_member("type"@, "message"@), text_member("text"@, text@)],
        ),
        AgentNews::Error(why) => Some(broken(why@)),
        AgentNews::Other => None,
    }
}

pub open spec fn object_model(o: Option<Vec<Field>>) -> Option<Seq<Member>> {
    match o {
        Some(v) => Some(members(v@)),
        None => None,
    }
}

/// What is passed on of the news.
pub fn agent_event_json(news: &AgentNews) -> (o: Option<Vec<Field>>)
    ensures
        object_model(o) == news_object(*news),
{
    match news {
        AgentNews::ToolCall { name, arguments } => Some(
            three(
                text_field("type", "tool_call".to_owned()),
                text_field("name", name.clone()),
                text_field("detail", first_chars(arguments.as_str(), 80)),
            ),
        ),
        AgentNews::Message(text) => Some(
            two(text_field("type", "message".to_owned()), text_field("text", text.clone())),
        ),
        AgentNews::Error(why) => Some(break_off(why.clone())),
        AgentNews::Other => None,
    }
}

/// Passes news on, and remembers whether an error was among them.
pub struct EventPump {
    pub sent_error: bool,
}

impl EventPump {
    pub fn new() -> (p: EventPump)
        ensures
            !p.sent_error,
    {
        EventPump { sent_error: false }
    }

    /// What is passed on of the next news.
    pub fn pump(&mut self, news: &AgentNews) -> (o: Option<Vec<Field>>)
        ensures
            object_model(o) == news_object(*news),
            final(self).sent_error == (old(self).sent_error || *news is Error),
    {
        match news {
            AgentNews::Error(_) => {
                self.sent_error = true;
            },
            _ => {},
        }
        agent_event_json(news)
    }
}

/// Members, values and answers hold what they are made of, texts and lists as they stand.
pub proof fn law_members_hold_their_values(
    key: Seq<char>,
    text: Seq<char>,
    list: Seq<Seq<char>>,
    flag: bool,
    count: u64,
    status: u16,
)
    ensures
        text_member(key, text) == (Member { key, value: ValueOf::Text(text) }),
        texts_member(key, list) == (Member { key, value: ValueOf::Texts(list) }),
        flag_member(key, flag) == (Member { key, value: ValueOf::Flag(flag) }),
        count_member(key, count) == (Member { key, value: ValueOf::Count(count) }),
        refusal(status, text).status == status,
        refusal(status, text).body == seq![Member { key: "error"@, value: ValueOf::Text(text) }],
        broken(text) == seq![
            Member { key: "type"@, value: ValueOf::Text("error"@) },
            Member { key: "error"@, value: ValueOf::Text(text) },
        ],
{
}

/// What stands in an answer is what was put into it: members, keys and values as they stand, in their
/// order.
pub proof fn law_answers_say_everything(v: Seq<Field>, r: Reply, i: int)
    ensures
        members(v).len() == v.len(),
        0 <= i < v.len() ==> members(v)[i].key == v[i].key@ && match v[i].value {
            ValueOf::Null => members(v)[i].value is Null,
            ValueOf::Flag(b) => members(v)[i].value == ValueModel::Flag(b),
            ValueOf::Count(n) => members(v)[i].value == ValueModel::Count(n),
            ValueOf::Text(s) => members(v)[i].value == ValueModel::Text(s@),
            ValueOf::Texts(l) => members(v)[i].value matches ValueOf::Texts(m) && m.len()
                == l@.len() && forall|k: int| 0 <= k < m.len() ==> #[trigger] m[k] == l@[k]@,
        },
        r@.status == r.status,
        r@.body == members(r.body@),
{
}

/// News are passed on as they come: tool calls with their name and the first eighty characters of
/// what they are given, messages and errors with all of their text, and nothing else.
pub proof fn law_news_are_passed_on(news: AgentNews)
    ensures
        match news {
            AgentNews::ToolCall { name, arguments } => exists|detail: Seq<char>|
                news_object(news) == Some(
                    seq![
                        Member { key: "type"@, value: ValueOf::Text("tool_call"@) },
                        Member { key: "name"@, value: ValueOf::Text(name@) },
                        #[trigger] detail_member(detail),
                    ],
                ) && detail.len() == (if arguments@.len() <= 80 {
                    arguments@.len()
                } else {
                    80
                }) && detail =~= arguments@.take(detail.len() as int),
            AgentNews::Message(text) => news_object(news) == Some(
                seq![
                    Member { key: "type"@, value: ValueOf::Text("message"@) },
                    Member { key: "text"@, value: ValueOf::Text(text@) },
                ],
            ),
            AgentNews::Error(why) => news_object(news) == Some(
                seq![
                    Member { key: "type"@, value: ValueOf::Text("error"@) },
                    Member { key: "error"@, value: ValueOf::Text(why@) },
                ],
            ),
            AgentNews::Other => news_object(news) is None,
        },
{
    if let AgentNews::ToolCall { name, arguments } = news {
        let detail = cut(arguments@, 80);
        assert(detail =~= arguments@.take(detail.len() as int));
        assert(news_object(news) == Some(
            seq![
                Member { key: "type"@, value: ValueOf::Text("tool_call"@) },
                Member { key: "name"@, value: ValueOf::Text(name@) },
                detail_member(detail),
            ],
        ));
    }
}

/// The member of a tool call that holds what the tool is given.
pub open spec fn detail_member(detail: Seq<char>) -> Member {
    Member { key: "detail"@, value: ValueOf::Text(detail) }
}

/// The model of an object is the object, member by member, and nothing where there is none.
pub proof fn law_objects_are_modelled_whole(v: Vec<Field>, i: int)
    ensures
        object_model(None) is None,
        object_model(Some(v)) is Some,
        object_model(Some(v))->0.len() == v@.len(),
        0 <= i < v@.len() ==> object_model(Some(v))->0[i].key == v@[i].key@
            && object_model(Some(v))->0[i].value == v@[i].value@,
{
}

} // verus!
