//! The state of the service: the vault, its gateway, the one session on it, the settings of the
//! model, and the chat.

use crate::flow::maybe;
use crate::gateway::{GatewayState, KernelCall, KeyGateway, SessionRegistry};
#[allow(unused_imports)]
use crate::gateway::{fresh_gateway, Gateway};
use crate::llm::{LlmConfig, LlmEnv};
#[allow(unused_imports)]
use crate::llm::{loaded_settings, masked, Llm};
#[allow(unused_imports)]
use crate::paths::under;
#[allow(unused_imports)]
use crate::reply::{
    count_member,
    flag_member,
    refusal,
    text_member,
    Answer,
    Member,
    ValueOf,
};
use crate::reply::{
    count_field,
    flag_field,
    four,
    refuse,
    text_field,
    three,
    Field,
    Reply,
};
use crate::text::{same, texts};
use crate::vault::{DecryptedSession, Vault};
#[allow(unused_imports)]
use crate::vault::{bytes_or_why, call_or_why, sealing_call, session_ended, Session};
use vstd::prelude::*;

verus! {

/// What a request to a locked vault is told.
pub const LOCKED: &'static str = "知识库已锁定：请先解锁（POST /api/gateway/open）";

/// What a request is told that needs a model where none is set.
pub const NO_LLM: &'static str = "未配置 LLM：请在设置页填写模型配置并保存，或设置环境变量 MW_LLM_API_KEY（可选 MW_LLM_PROVIDER / MW_LLM_BASE_URL / MW_LLM_MODEL）后重启 mindwiki serve";

pub struct AppState {
    pub vault: Vault,
    pub gateway: KeyGateway,
    pub admin_token: String,
    pub skills_root: String,
    /// The session that all requests work in, from unlocking to locking.
    pub current_session: Option<DecryptedSession>,
    pub llm: LlmConfig,
    pub config_path: String,
    /// There is a chat.
    pub chat: bool,
}

/// The mathematical content of the state.
pub struct App {
    pub root: Seq<char>,
    pub gateway: Gateway,
    pub admin_token: Seq<char>,
    pub skills_root: Seq<char>,
    pub session: Option<Session>,
    pub llm: Llm,
    pub config_path: Seq<char>,
    pub chat: bool,
}

impl View for AppState {
    type V = App;

    open spec fn view(&self) -> App {
        App {
            root: self.vault.root@,
            gateway: self.gateway@,
            admin_token: self.admin_token@,
            skills_root: self.skills_root@,
            session: match self.current_session {
                Some(s) => Some(s@),
                None => None,
            },
            llm: self.llm@,
            config_path: self.config_path@,
            chat: self.chat,
        }
    }
}

/// What every request is answered that needs an open gateway.
pub open spec fn locked_out() -> Answer {
    refusal(423, LOCKED@)
}

/// A model can be asked.
pub open spec fn llm_ready(app: App) -> bool {
    app.llm.api_key.len() > 0
}

/// The state after looking for settings once more: they are taken if there is a key in them.
pub open spec fn with_fresh_llm(app: App, file: Option<String>, env: LlmEnv) -> App {
    let fresh = loaded_settings(file, env);
    if fresh.api_key.len() > 0 {
        App { llm: fresh, ..app }
    } else {
        app
    }
}

/// The directory of the session, if there is one.
pub open spec fn session_dir(app: App) -> Option<Seq<char>> {
    match app.session {
        Some(s) => Some(s.work_dir),
        None => None,
    }
}

/// The state without its session, which is signed off with the gateway.
pub open spec fn without_session(app: App) -> App {
    match app.session {
        Some(s) => App {
            session: None,
            gateway: Gateway { sessions: app.gateway.sessions.remove(s.id), ..app.gateway },
            ..app
        },
        None => app,
    }
}

/// The state with a new session, which is entered with the gateway.
pub open spec fn with_session(app: App, id: Seq<char>, work_dir: Seq<char>) -> App {
    App {
        session: Some(Session { id, work_dir, terminate: false }),
        gateway: Gateway { sessions: app.gateway.sessions.insert(id, work_dir), ..app.gateway },
        ..app
    }
}

/// How the state of the gateway is told.
pub open spec fn gate_word(g: Gateway) -> Seq<char> {
    if g.unlocked {
        "open"@
    } else {
        "closed"@
    }
}

/// What is told of the gateway: its state, when it was last closed, and how many sessions are open.
pub open spec fn gate_report(app: App) -> Answer {
    Answer {
        status: 200,
        body: seq![
            text_member("state"@, gate_word(app.gateway)),
            Member {
                key: "closed_at"@,
                value: match app.gateway.closed_at {
                    Some(stamp) => ValueOf::Text(stamp),
                    None => ValueOf::Null,
                },
            },
            count_member("active_sessions"@, app.gateway.sessions.dom().len() as u64),
        ],
    }
}

/// What is told of the vault: whether there is one, how large its container is, and whether it is
/// open.
pub open spec fn vault_report(app: App, present: bool, size: u64) -> Answer {
    Answer {
        status: 200,
        body: seq![
            flag_member("exists"@, present),
            count_member(
                "size"@,
                if present {
                    size
                } else {
                    0
                },
            ),
            text_member(
                "state"@,
                if present && app.gateway.unlocked {
                    "open"@
                } else {
                    "sealed"@
                },
            ),
        ],
    }
}

/// What is told of the settings of the model. The key is told only masked.
pub open spec fn llm_report(app: App) -> Answer {
    if app.gateway.unlocked {
        Answer {
            status: 200,
            body: seq![
                text_member("provider"@, app.llm.provider),
                text_member("base_url"@, app.llm.base_url),
                text_member("model"@, app.llm.model),
                text_member("api_key_masked"@, masked(app.llm.api_key)),
            ],
        }
    } else {
        locked_out()
    }
}

/// Where the wiki can be read, or what to answer if it cannot.
pub open spec fn browsed(app: App) -> Result<Seq<char>, Answer> {
    if app.gateway.unlocked && app.session is Some {
        Ok(app.session->0.work_dir)
    } else {
        Err(locked_out())
    }
}

/// What is needed to start the service: whether the container is there, what it holds, the admin
/// token, and the salt of a new kernel for the case that there is no vault yet.
pub struct Found {
    pub present: Vec<String>,
    pub container: Result<Vec<u8>, String>,
    pub admin_token: Result<String, String>,
    pub salt: Result<Vec<u8>, String>,
    pub config: Option<String>,
    pub env: LlmEnv,
}

/// The state that the service starts in: the gateway is closed, and there is no session and no chat.
pub open spec fn starting(
    root: Seq<char>,
    skills_root: Seq<char>,
    gateway: Gateway,
    admin_token: Seq<char>,
    found: Found,
) -> App {
    App {
        root,
        gateway,
        admin_token,
        skills_root,
        session: None,
        llm: loaded_settings(found.config, found.env),
        config_path: under(root, "appconfig.json"@),
        chat: false,
    }
}

fn null_or_text(key: &str, value: Option<String>) -> (f: Field)
    ensures
        f@ == (Member {
            key: key@,
            value: match value {
                Some(s) => ValueOf::Text(s@),
                None => ValueOf::Null,
            },
        }),
{
    match value {
        Some(s) => text_field(key, s),
        None => Field { key: key.to_owned(), value: ValueOf::Null },
    }
}

/// The answer to a request that needs an open gateway.
pub fn lock_out() -> (r: Reply)
    ensures
        r@ == locked_out(),
{
    refuse(423, LOCKED.to_owned())
}

/// The state that the service starts in on a vault.
pub fn load_state(vault: Vault, skills_root: &str, found: Found) -> (r: Result<AppState, String>)
    ensures
        if texts(found.present@).contains(under(vault.root@, "vault.mwenc"@)) {
            match (
                crate::vault::gateway_in(found.container),
                found.admin_token,
            ) {
                (Err(why), _) => r matches Err(e) && e@ == why,
                (Ok(_), Err(why)) => r matches Err(e) && e@ == why@,
                (Ok(g), Ok(token)) => r matches Ok(s) && s@ == starting(
                    vault.root@,
                    skills_root@,
                    g,
                    token@,
                    found,
                ),
            }
        } else {
            match found.salt {
                Err(why) => r matches Err(e) && e@ == why@,
                Ok(salt) => r matches Ok(s) && s@ == starting(
                    vault.root@,
                    skills_root@,
                    fresh_gateway(salt@, None),
                    ""@,
                    found,
                ),
            }
        },
{
    let (gateway, admin_token) = if vault.is_present(&found.present) {
        let gateway = match Vault::gateway_from_container(found.container) {
            Ok(g) => g,
            Err(why) => {
                return Err(why);
            },
        };
        match found.admin_token {
            Ok(token) => (gateway, token),
            Err(why) => {
                return Err(why);
            },
        }
    } else {
        match KeyGateway::new(found.salt) {
            Ok(g) => (g, "".to_owned()),
            Err(why) => {
                return Err(why);
            },
        }
    };
    let config_path = vault.config_path();
    let llm = LlmConfig::load_or_env(&found.config, &found.env);
    Ok(
        AppState {
            vault,
            gateway,
            admin_token,
            skills_root: skills_root.to_owned(),
            current_session: None,
            llm,
            config_path,
            chat: false,
        },
    )
}

impl AppState {
    /// Fails with the answer to give if the gateway is closed.
    pub fn check_gate(&self) -> (r: Result<(), Reply>)
        ensures
            match r {
                Ok(()) => self@.gateway.unlocked,
                Err(reply) => !self@.gateway.unlocked && reply@ == locked_out(),
            },
    {
        match self.gateway.guard() {
            Ok(()) => Ok(()),
            Err(_) => Err(lock_out()),
        }
    }

    /// Whether a model can be asked.
    pub fn llm_ready(&self) -> (b: bool)
        ensures
            b == llm_ready(self@),
    {
        self.llm.ready()
    }

    /// Looks for settings of the model in a file and in the environment, and takes them if there
    /// is a key in them. Whether a model can be asked now.
    pub fn refresh_llm(&mut self, file: &Option<String>, env: &LlmEnv) -> (b: bool)
        ensures
            final(self)@ == with_fresh_llm(old(self)@, *file, *env),
            b == (loaded_settings(*file, *env).api_key.len() > 0),
    {
        let fresh = LlmConfig::load_or_env(file, env);
        if fresh.ready() {
            self.llm = fresh;
            true
        } else {
            false
        }
    }

    /// Gives the session up, and its directory away.
    pub fn drop_session(&mut self) -> (dir: Option<String>)
        ensures
            final(self)@ == without_session(old(self)@),
            maybe(dir) == session_dir(old(self)@),
    {
        match self.current_session.take() {
            Some(s) => {
                self.gateway.unregister(s.id.as_str());
                Some(s.work_dir)
            },
            None => None,
        }
    }

    /// Takes up a session that was opened.
    pub fn adopt_session(&mut self, id: String, work_dir: String)
        ensures
            final(self)@ == with_session(old(self)@, id@, work_dir@),
    {
        let s = self.vault.session_opened(&mut self.gateway, id, work_dir);
        self.current_session = Some(s);
    }

    /// The directory of the session, if there is one.
    pub fn session_dir(&self) -> (dir: Option<String>)
        ensures
            maybe(dir) == session_dir(self@),
    {
        match &self.current_session {
            Some(s) => Some(s.work_dir.clone()),
            None => None,
        }
    }

    /// What the kernel is to encrypt to seal the session, from what its directory was packed into.
    pub fn seal_session(&self, packed: Result<Vec<u8>, String>) -> (r: Result<KernelCall, String>)
        ensures
            call_or_why(r) == (match self@.session {
                Some(s) => sealing_call(self@.gateway, s, bytes_or_why(packed)),
                None => Err(session_ended()),
            }),
    {
        match &self.current_session {
            Some(s) => self.vault.seal_session(&self.gateway, s, packed),
            None => Err("session terminated — nothing is sealed".to_owned()),
        }
    }

    /// What is told of the gateway.
    pub fn gate_report(&self) -> (r: Reply)
        ensures
            r@ == gate_report(self@),
    {
        let word = match self.gateway.state() {
            GatewayState::Open => "open".to_owned(),
            GatewayState::Closed => "closed".to_owned(),
        };
        let n: u64 = self.gateway.active_sessions() as u64;
        Reply {
            status: 200,
            body: three(
                text_field("state", word),
                null_or_text("closed_at", self.gateway.closed_at()),
                count_field("active_sessions", n),
            ),
        }
    }

    /// What is told of the vault, given whether its container is there and how large it is.
    pub fn vault_report(&self, present: &Vec<String>, size: u64) -> (r: Reply)
        ensures
            r@ == vault_report(
                self@,
                texts(present@).contains(under(self@.root, "vault.mwenc"@)),
                size,
            ),
    {
        let there = self.vault.is_present(present);
        let open = self.gateway.state() == GatewayState::Open;
        let word = if there && open {
            "open".to_owned()
        } else {
            "sealed".to_owned()
        };
        let shown: u64 = if there {
            size
        } else {
            0
        };
        Reply {
            status: 200,
            body: three(
                flag_field("exists", there),
                count_field("size", shown),
                text_field("state", word),
            ),
        }
    }

    /// What is told of the settings of the model.
    pub fn llm_report(&self) -> (r: Reply)
        ensures
            r@ == llm_report(self@),
    {
        match self.check_gate() {
            Ok(()) => {},
            Err(reply) => {
                return reply;
            },
        }
        Reply {
            status: 200,
            body: four(
                text_field("provider", self.llm.provider.clone()),
                text_field("base_url", self.llm.base_url.clone()),
                text_field("model", self.llm.model.clone()),
                text_field("api_key_masked", self.llm.masked_key()),
            ),
        }
    }

    /// The directory that the wiki can be read in.
    pub fn browse_work_dir(&self) -> (r: Result<String, Reply>)
        ensures
            (match r {
                Ok(dir) => Ok(dir@),
                Err(reply) => Err(reply@),
            }) == browsed(self@),
    {
        match self.check_gate() {
            Ok(()) => {},
            Err(reply) => {
                return Err(reply);
            },
        }
        match self.session_dir() {
            Some(dir) => Ok(dir),
            None => Err(lock_out()),
        }
    }

    /// Whether this is the token that the gateway is closed with.
    pub fn is_admin(&self, token: &str) -> (b: bool)
        ensures
            b == (token@ == self@.admin_token),
    {
        same(token, self.admin_token.as_str())
    }
}

/// What is told of the gateway, the vault and the settings is what the state holds: whether the
/// gateway is open, when it was last closed, how many sessions there are; whether there is a vault,
/// how large it is and whether it is open; and, with the gateway open only, the provider, the
/// address, the model, and the key in its masked form.
pub proof fn law_reports_tell_the_state(app: App, present: bool, size: u64)
    ensures
        gate_report(app) == (Answer {
            status: 200,
            body: seq![
                Member {
                    key: "state"@,
                    value: ValueOf::Text(
                        if app.gateway.unlocked {
                            "open"@
                        } else {
                            "closed"@
                        },
                    ),
                },
                Member {
                    key: "closed_at"@,
                    value: match app.gateway.closed_at {
                        Some(stamp) => ValueOf::Text(stamp),
                        None => ValueOf::Null,
                    },
                },
                Member {
                    key: "active_sessions"@,
                    value: ValueOf::Count(app.gateway.sessions.dom().len() as u64),
                },
            ],
        }),
        vault_report(app, present, size) == (Answer {
            status: 200,
            body: seq![
                Member { key: "exists"@, value: ValueOf::Flag(present) },
                Member {
                    key: "size"@,
                    value: ValueOf::Count(
                        if present {
                            size
                        } else {
                            0
                        },
                    ),
                },
                Member {
                    key: "state"@,
                    value: ValueOf::Text(
                        if present && app.gateway.unlocked {
                            "open"@
                        } else {
                            "sealed"@
                        },
                    ),
                },
            ],
        }),
        app.gateway.unlocked ==> llm_report(app) == (Answer {
            status: 200,
            body: seq![
                Member { key: "provider"@, value: ValueOf::Text(app.llm.provider) },
                Member { key: "base_url"@, value: ValueOf::Text(app.llm.base_url) },
                Member { key: "model"@, value: ValueOf::Text(app.llm.model) },
                Member { key: "api_key_masked"@, value: ValueOf::Text(masked(app.llm.api_key)) },
            ],
        }),
        !app.gateway.unlocked ==> llm_report(app) == (Answer {
            status: 423,
            body: seq![
                Member {
                    key: "error"@,
                    value: ValueOf::Text(
                        "知识库已锁定：请先解锁（POST /api/gateway/open）"@,
                    ),
                },
            ],
        }),
{
}

/// The wiki is read in the directory of the session, exactly if the gateway is open and there is one.
pub proof fn law_the_wiki_is_read_in_the_session(app: App)
    ensures
        match browsed(app) {
            Ok(dir) => app.gateway.unlocked && (app.session matches Some(s) && s.work_dir == dir),
            Err(a) => (!app.gateway.unlocked || app.session is None) && a.status == 423 && a.body
                == seq![
                Member {
                    key: "error"@,
                    value: ValueOf::Text(
                        "知识库已锁定：请先解锁（POST /api/gateway/open）"@,
                    ),
                },
            ],
        },
        session_dir(app) == (match app.session {
            Some(s) => Some(s.work_dir),
            None => None,
        }),
        llm_ready(app) <==> app.llm.api_key.len() > 0,
{
}

/// The service starts with what was found: the gateway, the token and the settings; without a session
/// and without a chat.
pub proof fn law_the_service_starts_with_what_was_found(
    root: Seq<char>,
    skills_root: Seq<char>,
    gateway: Gateway,
    admin_token: Seq<char>,
    found: Found,
)
    ensures
        ({
            let app = starting(root, skills_root, gateway, admin_token, found);
            &&& app.root == root
            &&& app.skills_root == skills_root
            &&& app.gateway == gateway
            &&& app.admin_token == admin_token
            &&& app.session is None
            &&& !app.chat
            &&& app.llm == loaded_settings(found.config, found.env)
            &&& app.config_path == under(root, "appconfig.json"@)
        }),
{
}

/// A session that is taken up is the one that requests work in, and is entered with the gateway; one
/// that is given up is signed off there. Nothing else changes, and giving up what was just taken up
/// leaves the state without a session.
pub proof fn law_sessions_are_entered_and_signed_off(
    app: App,
    id: Seq<char>,
    dir: Seq<char>,
    file: Option<String>,
    env: LlmEnv,
)
    ensures
        with_session(app, id, dir) == (App {
            session: Some(Session { id, work_dir: dir, terminate: false }),
            gateway: Gateway { sessions: app.gateway.sessions.insert(id, dir), ..app.gateway },
            ..app
        }),
        app.session is None ==> without_session(app) == app,
        app.session matches Some(s) ==> without_session(app) == (App {
            session: None,
            gateway: Gateway { sessions: app.gateway.sessions.remove(s.id), ..app.gateway },
            ..app
        }),
        !app.gateway.sessions.dom().contains(id) ==> without_session(
            with_session(app, id, dir),
        ).gateway.sessions == app.gateway.sessions,
        with_fresh_llm(app, file, env) == (if loaded_settings(file, env).api_key.len() > 0 {
            App { llm: loaded_settings(file, env), ..app }
        } else {
            app
        }),
{
    if !app.gateway.sessions.dom().contains(id) {
        assert(app.gateway.sessions.insert(id, dir).remove(id) =~= app.gateway.sessions);
    }
}

/// The model of the state says what the state is.
pub proof fn law_the_state_is_modelled_whole(s: AppState)
    ensures
        s@.root == s.vault.root@,
        s@.gateway == s.gateway@,
        s@.admin_token == s.admin_token@,
        s@.skills_root == s.skills_root@,
        s@.config_path == s.config_path@,
        s@.chat == s.chat,
        s@.llm == s.llm@,
        s@.session is Some <==> s.current_session is Some,
        s.current_session is Some ==> s@.session->0.id == s.current_session->0.id@
            && s@.session->0.work_dir == s.current_session->0.work_dir@ && s@.session->0.terminate
            == s.current_session->0.terminate,
{
}

} // verus!
