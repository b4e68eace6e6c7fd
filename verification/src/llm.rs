//! The settings of the language model, and the file that keeps them.

use crate::text::{cat3, chars_of, text_of, texts};
use vstd::prelude::*;

verus! {

// ---------------------------------------------------------------------------
// JSON
// ---------------------------------------------------------------------------

/// The text that member `field` of member `section` of the JSON document `text` is: nothing
/// where `text` is no JSON, where there is no such member, or where it is no string.
pub uninterp spec fn json_field(text: Seq<char>, section: Seq<char>, field: Seq<char>) -> Option<
    Seq<char>,
>;

/// The texts that the array in member `section` of the JSON document `text` holds: nothing where
/// `text` is no JSON, where there is no such array, or where an item of it is no string.
pub uninterp spec fn json_row(text: Seq<char>, section: Seq<char>) -> Option<Seq<Seq<char>>>;

/// The JSON document, indented, of an object whose one member `section` is an object with the
/// given string members.
pub uninterp spec fn json_document(
    section: Seq<char>,
    fields: Seq<(Seq<char>, Seq<char>)>,
) -> Seq<char>;

pub open spec fn text_model(s: Option<String>) -> Option<Seq<char>> {
    match s {
        Some(s) => Some(s@),
        None => None,
    }
}

pub open spec fn row_model(v: Option<Vec<String>>) -> Option<Seq<Seq<char>>> {
    match v {
        Some(v) => Some(texts(v@)),
        None => None,
    }
}

/// Names and values of the members of an object.
pub open spec fn pairs(v: Seq<(String, String)>) -> Seq<(Seq<char>, Seq<char>)> {
    v.map_values(|p: (String, String)| (p.0@, p.1@))
}

/// `serde_json::from_str` reads the text as a JSON value, `Value::get` takes the two members one
/// after the other, and `Value::as_str` gives the string. The result depends on the arguments
/// alone.
#[verifier::external_body]
fn read_field(text: &str, section: &str, field: &str) -> (r: Option<String>)
    ensures
        text_model(r) == json_field(text@, section@, field@),
{
    let value: serde_json::Value = serde_json::from_str(text).ok()?;
    value.get(section)?.get(field)?.as_str().map(|s| s.to_string())
}

/// `serde_json::from_str` reads the text as a JSON value, `Value::get` takes the member,
/// `Value::as_array` its items, and `Value::as_str` the string that each of them is. The result
/// depends on the arguments alone.
#[verifier::external_body]
fn read_row(text: &str, section: &str) -> (r: Option<Vec<String>>)
    ensures
        row_model(r) == json_row(text@, section@),
{
    let value: serde_json::Value = serde_json::from_str(text).ok()?;
    let items = value.get(section)?.as_array()?;
    items.iter().map(|item| item.as_str().map(|s| s.to_string())).collect()
}

/// A member name that is read as it is written. (`serde_json` keeps some names that begin with a
/// dollar sign for itself.)
pub open spec fn is_plain(name: Seq<char>) -> bool {
    name.len() > 0 && name[0] != '$'
}

/// `serde_json::to_string_pretty` writes the object, which does not fail on an object of strings.
/// The text depends on the arguments alone, and it reads back: where all names are plain, a member
/// that no later one replaces has the value that was written.
#[verifier::external_body]
fn write_document(section: &str, fields: Vec<(String, String)>) -> (r: Result<String, String>)
    ensures
        r is Ok,
        r matches Ok(t) ==> t@ == json_document(section@, pairs(fields@)),
        (r matches Ok(t) && is_plain(section@) && forall|k: int|
            0 <= k < fields@.len() ==> is_plain((#[trigger] fields@[k]).0@)) ==> forall|i: int|
            0 <= i < fields@.len() && (forall|j: int|
                i < j < fields@.len() ==> (#[trigger] fields@[j]).0@ != fields@[i].0@)
                ==> json_field(r->Ok_0@, section@, (#[trigger] fields@[i]).0@) == Some(
                fields@[i].1@,
            ),
{
    let members: serde_json::Map<String, serde_json::Value> = fields
        .into_iter()
        .map(|(name, value)| (name, serde_json::Value::String(value)))
        .collect();
    let mut top = serde_json::Map::new();
    top.insert(section.to_string(), serde_json::Value::Object(members));
    serde_json::to_string_pretty(&top).map_err(|e| e.to_string())
}

// ---------------------------------------------------------------------------
// Settings
// ---------------------------------------------------------------------------

#[derive(Debug, PartialEq, Eq)]
pub struct LlmConfig {
    pub provider: String,
    pub base_url: String,
    pub api_key: String,
    pub model: String,
}

/// The mathematical content of the settings.
pub struct Llm {
    pub provider: Seq<char>,
    pub base_url: Seq<char>,
    pub api_key: Seq<char>,
    pub model: Seq<char>,
}

impl View for LlmConfig {
    type V = Llm;

    open spec fn view(&self) -> Llm {
        Llm {
            provider: self.provider@,
            base_url: self.base_url@,
            api_key: self.api_key@,
            model: self.model@,
        }
    }
}

impl Clone for LlmConfig {
    fn clone(&self) -> (r: LlmConfig)
        ensures
            r@ == self@,
    {
        LlmConfig {
            provider: self.provider.clone(),
            base_url: self.base_url.clone(),
            api_key: self.api_key.clone(),
            model: self.model.clone(),
        }
    }
}

/// The environment's settings: `MW_LLM_PROVIDER`, `MW_LLM_BASE_URL`, `MW_LLM_API_KEY` and
/// `MW_LLM_MODEL`, each where it is set.
pub struct LlmEnv {
    pub provider: Option<String>,
    pub base_url: Option<String>,
    pub api_key: Option<String>,
    pub model: Option<String>,
}

pub open spec fn set_or(v: Option<String>, default: Seq<char>) -> Seq<char> {
    match v {
        Some(s) => s@,
        None => default,
    }
}

/// The settings of the environment. The provider is `openai_compat` where nothing is said.
pub open spec fn env_settings(env: LlmEnv) -> Llm {
    Llm {
        provider: set_or(env.provider, "openai_compat"@),
        base_url: set_or(env.base_url, ""@),
        api_key: set_or(env.api_key, ""@),
        model: set_or(env.model, ""@),
    }
}

/// The settings that the `llm` member of a file holds: an object with the four members, or the
/// four values in a row.
pub open spec fn settings_from(
    provider: Option<Seq<char>>,
    base_url: Option<Seq<char>>,
    api_key: Option<Seq<char>>,
    model: Option<Seq<char>>,
    row: Option<Seq<Seq<char>>>,
) -> Option<Llm> {
    match (provider, base_url, api_key, model) {
        (Some(provider), Some(base_url), Some(api_key), Some(model)) => Some(
            Llm { provider, base_url, api_key, model },
        ),
        _ => match row {
            Some(row) => if row.len() == 4 {
                Some(Llm { provider: row[0], base_url: row[1], api_key: row[2], model: row[3] })
            } else {
                None
            },
            None => None,
        },
    }
}

/// The settings that a file holds.
pub open spec fn file_settings(text: Seq<char>) -> Option<Llm> {
    settings_from(
        json_field(text, "llm"@, "provider"@),
        json_field(text, "llm"@, "base_url"@),
        json_field(text, "llm"@, "api_key"@),
        json_field(text, "llm"@, "model"@),
        json_row(text, "llm"@),
    )
}

/// The settings of the file where it has them, and those of the environment otherwise.
pub open spec fn loaded_settings(file: Option<String>, env: LlmEnv) -> Llm {
    match file {
        Some(text) => match file_settings(text@) {
            Some(llm) => llm,
            None => env_settings(env),
        },
        None => env_settings(env),
    }
}

/// The members that the file holds the settings in.
pub open spec fn setting_fields(llm: Llm) -> Seq<(Seq<char>, Seq<char>)> {
    seq![
        ("provider"@, llm.provider),
        ("base_url"@, llm.base_url),
        ("api_key"@, llm.api_key),
        ("model"@, llm.model),
    ]
}

/// A key as it may be shown: nothing of a short one, and of a longer one its first three and its
/// last four characters.
pub open spec fn masked(key: Seq<char>) -> Seq<char> {
    if key.len() == 0 {
        ""@
    } else if key.len() <= 7 {
        "****"@
    } else {
        key.take(3) + "…"@ + key.skip(key.len() - 4)
    }
}

fn or_default(v: &Option<String>, default: &str) -> (r: String)
    ensures
        r@ == set_or(*v, default@),
{
    match v {
        Some(s) => s.clone(),
        None => default.to_owned(),
    }
}

/// The settings that were found in a file: in the four members, or in a row.
pub fn settings_found(
    provider: Option<String>,
    base_url: Option<String>,
    api_key: Option<String>,
    model: Option<String>,
    row: Option<Vec<String>>,
) -> (r: Option<LlmConfig>)
    ensures
        (match r {
            Some(c) => Some(c@),
            None => None,
        }) == settings_from(
            text_model(provider),
            text_model(base_url),
            text_model(api_key),
            text_model(model),
            row_model(row),
        ),
{
    match (provider, base_url, api_key, model) {
        (Some(provider), Some(base_url), Some(api_key), Some(model)) => Some(
            LlmConfig { provider, base_url, api_key, model },
        ),
        _ => match row {
            Some(row) => if row.len() == 4 {
                Some(
                    LlmConfig {
                        provider: row[0].clone(),
                        base_url: row[1].clone(),
                        api_key: row[2].clone(),
                        model: row[3].clone(),
                    },
                )
            } else {
                None
            },
            None => None,
        },
    }
}

/// The settings that a file holds.
fn settings_in(text: &str) -> (r: Option<LlmConfig>)
    ensures
        (match r {
            Some(c) => Some(c@),
            None => None,
        }) == file_settings(text@),
{
    settings_found(
        read_field(text, "llm", "provider"),
        read_field(text, "llm", "base_url"),
        read_field(text, "llm", "api_key"),
        read_field(text, "llm", "model"),
        read_row(text, "llm"),
    )
}

impl LlmConfig {
    pub fn from_env(env: &LlmEnv) -> (c: LlmConfig)
        ensures
            c@ == env_settings(*env),
    {
        LlmConfig {
            provider: or_default(&env.provider, "openai_compat"),
            base_url: or_default(&env.base_url, ""),
            api_key: or_default(&env.api_key, ""),
            model: or_default(&env.model, ""),
        }
    }

    /// The settings of the file, if there is one and it holds them, else of the environment.
    pub fn load_or_env(file: &Option<String>, env: &LlmEnv) -> (c: LlmConfig)
        ensures
            c@ == loaded_settings(*file, *env),
    {
        match file {
            Some(text) => match settings_in(text.as_str()) {
                Some(c) => c,
                None => LlmConfig::from_env(env),
            },
            None => LlmConfig::from_env(env),
        }
    }

    /// The text of the file that keeps the settings.
    pub fn save(&self) -> (r: Result<String, String>)
        ensures
            r is Ok,
            r matches Ok(t) ==> t@ == json_document("llm"@, setting_fields(self@)),
            r matches Ok(t) ==> forall|env: LlmEnv| #[trigger]
                loaded_settings(Some(t), env) == self@,
    {
        let fields: Vec<(String, String)> = vec![
            ("provider".to_owned(), self.provider.clone()),
            ("base_url".to_owned(), self.base_url.clone()),
            ("api_key".to_owned(), self.api_key.clone()),
            ("model".to_owned(), self.model.clone()),
        ];
        let ghost fs = fields@;
        proof {
            reveal_strlit("llm");
            reveal_strlit("provider");
            reveal_strlit("base_url");
            reveal_strlit("api_key");
            reveal_strlit("model");
            assert(pairs(fs) =~= setting_fields(self@));
            assert("provider"@[0] != "base_url"@[0]);
            assert("provider"@[0] != "api_key"@[0]);
            assert("provider"@[0] != "model"@[0]);
            assert("base_url"@[0] != "api_key"@[0]);
            assert("base_url"@[0] != "model"@[0]);
            assert("api_key"@[0] != "model"@[0]);
        }
        let r = write_document("llm", fields);
        proof {
            if r is Ok {
                let t = r->Ok_0;
                assert(json_field(t@, "llm"@, fs[0].0@) == Some(fs[0].1@));
                assert(json_field(t@, "llm"@, fs[1].0@) == Some(fs[1].1@));
                assert(json_field(t@, "llm"@, fs[2].0@) == Some(fs[2].1@));
                assert(json_field(t@, "llm"@, fs[3].0@) == Some(fs[3].1@));
            }
        }
        r
    }

    /// The key as it may be shown.
    pub fn masked_key(&self) -> (r: String)
        ensures
            r@ == masked(self.api_key@),
    {
        let chars = chars_of(self.api_key.as_str());
        let n: usize = chars.len();
        if n == 0 {
            return "".to_owned();
        }
        if n <= 7 {
            return "****".to_owned();
        }
        let head = text_of(&chars, 0, 3);
        let tail = text_of(&chars, n - 4, n);
        assert(head@ =~= self.api_key@.take(3));
        assert(tail@ =~= self.api_key@.skip(n - 4));
        cat3(head.as_str(), "…", tail.as_str())
    }

    /// Whether a model can be asked at all.
    pub fn ready(&self) -> (b: bool)
        ensures
            b == (self.api_key@.len() > 0),
    {
        !self.api_key.as_str().is_empty()
    }
}

/// What is shown of a key of more than seven characters hides all but its first three and its
/// last four characters, and of a shorter one everything.
pub proof fn law_masking_hides_the_middle(a: Seq<char>, b: Seq<char>)
    requires
        a.len() > 0,
        b.len() > 0,
        a.len() <= 7 <==> b.len() <= 7,
        a.len() > 7 ==> a.take(3) == b.take(3) && a.skip(a.len() - 4) == b.skip(b.len() - 4),
    ensures
        masked(a) == masked(b),
        masked(a).len() <= 8,
{
    reveal_strlit("****");
    reveal_strlit("…");
}

/// Which settings hold: those of the file, if it holds all four, in an object or in a row; otherwise
/// those of the environment, where the provider is `openai_compat` and the rest empty unless it says
/// otherwise.
pub proof fn law_settings_come_from_file_or_environment(
    file: Option<String>,
    env: LlmEnv,
    provider: Seq<char>,
    base_url: Seq<char>,
    api_key: Seq<char>,
    model: Seq<char>,
)
    ensures
        ({
            let set = |v: Option<String>, otherwise: Seq<char>|
                match v {
                    Some(s) => s@,
                    None => otherwise,
                };
            let llm = Llm { provider, base_url, api_key, model };
            let outside = Llm {
                provider: set(env.provider, "openai_compat"@),
                base_url: set(env.base_url, ""@),
                api_key: set(env.api_key, ""@),
                model: set(env.model, ""@),
            };
            let as_object = |text: Seq<char>|
                {
                    &&& json_field(text, "llm"@, "provider"@) == Some(provider)
                    &&& json_field(text, "llm"@, "base_url"@) == Some(base_url)
                    &&& json_field(text, "llm"@, "api_key"@) == Some(api_key)
                    &&& json_field(text, "llm"@, "model"@) == Some(model)
                };
            let no_object = |text: Seq<char>|
                {
                    ||| json_field(text, "llm"@, "provider"@) is None
                    ||| json_field(text, "llm"@, "base_url"@) is None
                    ||| json_field(text, "llm"@, "api_key"@) is None
                    ||| json_field(text, "llm"@, "model"@) is None
                };
            &&& env_settings(env) == outside
            &&& file is None ==> loaded_settings(file, env) == outside
            &&& file matches Some(text) ==> {
                &&& as_object(text@) ==> loaded_settings(file, env) == llm
                &&& no_object(text@) && json_row(text@, "llm"@) == Some(
                    seq![provider, base_url, api_key, model],
                ) ==> loaded_settings(file, env) == llm
                &&& no_object(text@) && !(json_row(text@, "llm"@) matches Some(row) && row.len()
                    == 4) ==> loaded_settings(file, env) == outside
            }
        }),
{
}

/// A key is shown by its first three and its last four characters with an ellipsis between them, if it
/// has more than seven; a shorter one is hidden altogether, and none is shown as none.
pub proof fn law_keys_are_masked(key: Seq<char>)
    ensures
        key.len() == 0 ==> masked(key).len() == 0,
        1 <= key.len() <= 7 ==> masked(key) == seq!['*', '*', '*', '*'],
        key.len() > 7 ==> masked(key) == seq![
            key[0],
            key[1],
            key[2],
            '…',
            key[key.len() - 4],
            key[key.len() - 3],
            key[key.len() - 2],
            key[key.len() - 1],
        ],
{
    reveal_strlit("");
    reveal_strlit("****");
    reveal_strlit("…");
    if 1 <= key.len() <= 7 {
        assert(masked(key) =~= seq!['*', '*', '*', '*']);
    }
    if key.len() > 7 {
        assert(masked(key) =~= seq![
            key[0],
            key[1],
            key[2],
            '…',
            key[key.len() - 4],
            key[key.len() - 3],
            key[key.len() - 2],
            key[key.len() - 1],
        ]);
    }
}

/// The file keeps the four settings, each under its own name.
pub proof fn law_the_file_keeps_all_settings(llm: Llm)
    ensures
        setting_fields(llm) == seq![
            ("provider"@, llm.provider),
            ("base_url"@, llm.base_url),
            ("api_key"@, llm.api_key),
            ("model"@, llm.model),
        ],
{
}

/// The model of what is read from a document, or written to one, is that text, that row and those
/// members, one for one; and only an empty name, or one that begins with a dollar sign, is not plain.
pub proof fn law_documents_are_modelled_whole(
    s: String,
    row: Vec<String>,
    fields: Seq<(String, String)>,
    i: int,
    c: char,
    rest: Seq<char>,
)
    ensures
        text_model(None) is None,
        text_model(Some(s)) == Some(s@),
        row_model(None) is None,
        row_model(Some(row)) is Some,
        row_model(Some(row))->0.len() == row@.len(),
        0 <= i < row@.len() ==> row_model(Some(row))->0[i] == row@[i]@,
        pairs(fields).len() == fields.len(),
        0 <= i < fields.len() ==> pairs(fields)[i] == (fields[i].0@, fields[i].1@),
        !is_plain(seq![]),
        is_plain(seq![c] + rest) <==> c != '$',
{
    assert((seq![c] + rest)[0] == c);
}

} // verus!
