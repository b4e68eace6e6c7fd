//! Creating, unlocking and locking the vault.

use crate::flow::{answer, fail, Action, ActionOf, Event};
#[allow(unused_imports)]
use crate::flow::{answer_with, fail_with, maybe, Act};
use crate::gateway::{KernelCallOf, KeyGateway, Unlocking};
#[allow(unused_imports)]
use crate::gateway::{fresh_gateway, gate_closed, opening, said, shut, unlocking_result, Gateway};
#[allow(unused_imports)]
use crate::container::{container_bytes, contents_of, is_container, Contents};
#[allow(unused_imports)]
use crate::history::{refuses, reports, told_bytes, told_token, Steps};
#[allow(unused_imports)]
use crate::paths::under;
use crate::reply::{flag_field, one, text_field, three, Reply};
#[allow(unused_imports)]
use crate::reply::{flag_member, text_member, Answer, Member, ValueOf};
use crate::state::AppState;
#[allow(unused_imports)]
use crate::state::{session_dir, with_session, without_session, App};
use crate::text::{cat, cat3, same, texts};
use crate::vault::{DecryptedSession, Vault};
#[allow(unused_imports)]
use crate::vault::{gateway_in, sealed, Session};
use vstd::prelude::*;

verus! {

// ---------------------------------------------------------------------------
// Unlocking
// ---------------------------------------------------------------------------

/// How far an unlocking has come.
#[derive(Debug, Clone, Copy, PartialEq, Eq, Structural)]
pub enum OpenPhase {
    Start,
    Probing,
    Unlocking,
    LockingVault,
    LockingSession,
    Opening,
    Finished,
}

/// A request to unlock the vault.
pub struct OpenRun {
    pub phase: OpenPhase,
    pub password: String,
    /// When the gateway had last been closed as the password was tried.
    pub closed_at: Option<String>,
}

/// The mathematical content of a request to unlock.
pub struct Opener {
    pub phase: OpenPhase,
    pub password: Seq<char>,
    pub closed_at: Option<Seq<char>>,
}

impl View for OpenRun {
    type V = Opener;

    open spec fn view(&self) -> Opener {
        Opener {
            phase: self.phase,
            password: self.password@,
            closed_at: maybe(self.closed_at),
        }
    }
}

/// A request to unlock that has not begun.
pub open spec fn new_opener(password: Seq<char>) -> Opener {
    Opener { phase: OpenPhase::Start, password, closed_at: None }
}

pub open spec fn open_over(run: Opener, app: App, a: Act) -> (Opener, App, Act) {
    (Opener { phase: OpenPhase::Finished, ..run }, app, a)
}

/// Where the container of the vault lies.
pub open spec fn container_at(app: App) -> Seq<char> {
    under(app.root, "vault.mwenc"@)
}

pub open spec fn open_probed(run: Opener, app: App, present: Seq<Seq<char>>) -> (Opener, App, Act) {
    if present.contains(container_at(app)) {
        (
            Opener {
                phase: OpenPhase::Unlocking,
                closed_at: app.gateway.closed_at,
                ..run
            },
            app,
            ActionOf::Kernel(opening(app.gateway, run.password)),
        )
    } else {
        open_over(
            run,
            app,
            fail_with(409, "vault 不存在：请先创建知识库（POST /api/vault/init）"@),
        )
    }
}

/// The gateway is open if the kernel holds a key after the attempt, unless it was closed since the
/// password was handed to the kernel.
pub open spec fn open_unlocked(run: Opener, app: App, attempt: Unlocking, unlocked: bool) -> (
    Opener,
    App,
    Act,
) {
    let now = App {
        gateway: Gateway {
            unlocked: unlocked && app.gateway.closed_at == run.closed_at,
            ..app.gateway
        },
        ..app
    };
    match unlocking_result(attempt) {
        Ok(()) => (Opener { phase: OpenPhase::LockingVault, ..run }, now, ActionOf::LockVault),
        Err(why) => open_over(run, now, fail_with(403, why)),
    }
}

pub open spec fn open_opened(run: Opener, app: App, r: Result<(String, String), String>) -> (
    Opener,
    App,
    Act,
) {
    match r {
        Ok((id, dir)) => open_over(
            run,
            with_session(app, id@, dir@),
            answer_with(Answer { status: 200, body: seq![text_member("state"@, "open"@)] }),
        ),
        Err(why) => open_over(run, app, fail_with(500, "解密会话创建失败："@ + why@)),
    }
}

/// What a request to unlock does next: with the right password, a session is opened in place of
/// the one there was.
pub open spec fn open_next(run: Opener, app: App, ev: Event) -> (Opener, App, Act) {
    match (run.phase, ev) {
        (OpenPhase::Start, Event::Start) => (
            Opener { phase: OpenPhase::Probing, ..run },
            app,
            ActionOf::Probe(container_at(app)),
        ),
        (OpenPhase::Probing, Event::Present(present)) => open_probed(run, app, texts(present@)),
        (OpenPhase::Unlocking, Event::Unlocked { attempt, unlocked }) => open_unlocked(
            run,
            app,
            attempt,
            unlocked,
        ),
        (OpenPhase::LockingVault, Event::Ready) => (
            Opener { phase: OpenPhase::LockingSession, ..run },
            app,
            ActionOf::LockSession,
        ),
        (OpenPhase::LockingSession, Event::Ready) => (
            Opener { phase: OpenPhase::Opening, ..run },
            without_session(app),
            ActionOf::OpenSession { discard: session_dir(app) },
        ),
        (OpenPhase::Opening, Event::Opened(r)) => open_opened(run, app, r),
        _ => open_over(run, app, ActionOf::Misfit),
    }
}

fn same_time(a: &Option<String>, b: &Option<String>) -> (same_time: bool)
    ensures
        same_time == (maybe(*a) == maybe(*b)),
{
    match (a, b) {
        (Some(a), Some(b)) => same(a.as_str(), b.as_str()),
        (None, None) => true,
        _ => false,
    }
}

impl OpenRun {
    pub fn new(password: String) -> (run: OpenRun)
        ensures
            run@ == new_opener(password@),
    {
        OpenRun { phase: OpenPhase::Start, password, closed_at: None }
    }

    fn end(&mut self, a: Action) -> (r: Action)
        ensures
            final(self)@ == (Opener { phase: OpenPhase::Finished, ..old(self)@ }),
            r == a,
    {
        self.phase = OpenPhase::Finished;
        a
    }

    /// What is to be done next.
    pub fn next(&mut self, app: &mut AppState, ev: Event) -> (a: Action)
        ensures
            (final(self)@, final(app)@, a@) == open_next(old(self)@, old(app)@, ev),
    {
        match (self.phase, ev) {
            (OpenPhase::Start, Event::Start) => {
                self.phase = OpenPhase::Probing;
                ActionOf::Probe(app.vault.container_path())
            },
            (OpenPhase::Probing, Event::Present(present)) => {
                if app.vault.is_present(&present) {
                    self.phase = OpenPhase::Unlocking;
                    self.closed_at = app.gateway.closed_at();
                    ActionOf::Kernel(app.gateway.open(self.password.as_str()))
                } else {
                    self.end(
                        fail(
                            409,
                            "vault 不存在：请先创建知识库（POST /api/vault/init）".to_owned(),
                        ),
                    )
                }
            },
            (OpenPhase::Unlocking, Event::Unlocked { attempt, unlocked }) => {
                let overtaken = !same_time(&app.gateway.closed_at(), &self.closed_at);
                match app.gateway.opened(attempt, unlocked && !overtaken) {
                    Ok(()) => {
                        self.phase = OpenPhase::LockingVault;
                        ActionOf::LockVault
                    },
                    Err(why) => self.end(fail(403, why)),
                }
            },
            (OpenPhase::LockingVault, Event::Ready) => {
                self.phase = OpenPhase::LockingSession;
                ActionOf::LockSession
            },
            (OpenPhase::LockingSession, Event::Ready) => {
                let discard = app.drop_session();
                self.phase = OpenPhase::Opening;
                ActionOf::OpenSession { discard }
            },
            (OpenPhase::Opening, Event::Opened(r)) => {
                match r {
                    Ok((id, dir)) => {
                        app.adopt_session(id, dir);
                        self.end(
                            answer(
                                Reply {
                                    status: 200,
                                    body: one(text_field("state", "open".to_owned())),
                                },
                            ),
                        )
                    },
                    Err(why) => self.end(fail(500, cat("解密会话创建失败：", why.as_str()))),
                }
            },
            _ => self.end(ActionOf::Misfit),
        }
    }
}

// ---------------------------------------------------------------------------
// Locking
// ---------------------------------------------------------------------------

/// How far a locking has come.
#[derive(Debug, Clone, Copy, PartialEq, Eq, Structural)]
pub enum ClosePhase {
    Start,
    LockingKernel,
    LockingSession,
    Discarding,
    LockingChat,
    Finished,
}

/// A request to lock the vault.
pub struct CloseRun {
    pub phase: ClosePhase,
    pub token: String,
    /// When it came in.
    pub stamp: String,
}

/// The mathematical content of a request to lock.
pub struct Closer {
    pub phase: ClosePhase,
    pub token: Seq<char>,
    pub stamp: Seq<char>,
}

impl View for CloseRun {
    type V = Closer;

    open spec fn view(&self) -> Closer {
        Closer { phase: self.phase, token: self.token@, stamp: self.stamp@ }
    }
}

pub open spec fn close_over(run: Closer, app: App, a: Act) -> (Closer, App, Act) {
    (Closer { phase: ClosePhase::Finished, ..run }, app, a)
}

/// The state after the gateway was closed: the session that requests work in has been ended.
pub open spec fn locked_state(app: App, stamp: Seq<char>) -> App {
    App {
        gateway: shut(app.gateway, stamp),
        session: match app.session {
            Some(s) => Some(Session { terminate: true, ..s }),
            None => None,
        },
        ..app
    }
}

pub open spec fn close_start(run: Closer, app: App) -> (Closer, App, Act) {
    if run.token == app.admin_token {
        (
            Closer { phase: ClosePhase::LockingKernel, ..run },
            locked_state(app, run.stamp),
            ActionOf::Kernel(KernelCallOf::Lock),
        )
    } else {
        close_over(run, app, fail_with(403, "invalid admin token"@))
    }
}

/// What a request to lock does next: the gateway is closed and the key dropped at once, then the
/// session is destroyed, without being sealed, and then the chat ends.
pub open spec fn close_next(run: Closer, app: App, ev: Event) -> (Closer, App, Act) {
    match (run.phase, ev) {
        (ClosePhase::Start, Event::Start) => close_start(run, app),
        (ClosePhase::LockingKernel, Event::Ready) => (
            Closer { phase: ClosePhase::LockingSession, ..run },
            app,
            ActionOf::LockSession,
        ),
        (ClosePhase::LockingSession, Event::Ready) => (
            Closer { phase: ClosePhase::Discarding, ..run },
            without_session(app),
            ActionOf::Discard(session_dir(app)),
        ),
        (ClosePhase::Discarding, Event::Ready) => (
            Closer { phase: ClosePhase::LockingChat, ..run },
            app,
            ActionOf::LockChat,
        ),
        (ClosePhase::LockingChat, Event::Ready) => close_over(
            run,
            App { chat: false, ..app },
            answer_with(Answer { status: 200, body: seq![text_member("state"@, "closed"@)] }),
        ),
        _ => close_over(run, app, ActionOf::Misfit),
    }
}

impl AppState {
    /// Closes the gateway, and ends the session that requests work in.
    pub fn lock(&mut self, stamp: String)
        ensures
            final(self)@ == locked_state(old(self)@, stamp@),
    {
        let (_, _) = self.gateway.close(stamp);
        match self.current_session.take() {
            Some(s) => {
                self.current_session =
                Some(DecryptedSession { id: s.id, work_dir: s.work_dir, terminate: true });
            },
            None => {},
        }
    }
}

impl CloseRun {
    /// A request to lock the vault that came in at the given time.
    pub fn new(token: String, stamp: String) -> (run: CloseRun)
        ensures
            run@ == (Closer { phase: ClosePhase::Start, token: token@, stamp: stamp@ }),
    {
        CloseRun { phase: ClosePhase::Start, token, stamp }
    }

    fn end(&mut self, a: Action) -> (r: Action)
        ensures
            final(self)@ == (Closer { phase: ClosePhase::Finished, ..old(self)@ }),
            r == a,
    {
        self.phase = ClosePhase::Finished;
        a
    }

    /// What is to be done next.
    pub fn next(&mut self, app: &mut AppState, ev: Event) -> (a: Action)
        ensures
            (final(self)@, final(app)@, a@) == close_next(old(self)@, old(app)@, ev),
    {
        match (self.phase, ev) {
            (ClosePhase::Start, Event::Start) => {
                if app.is_admin(self.token.as_str()) {
                    app.lock(self.stamp.clone());
                    self.phase = ClosePhase::LockingKernel;
                    ActionOf::Kernel(KernelCallOf::Lock)
                } else {
                    self.end(fail(403, "invalid admin token".to_owned()))
                }
            },
            (ClosePhase::LockingKernel, Event::Ready) => {
                self.phase = ClosePhase::LockingSession;
                ActionOf::LockSession
            },
            (ClosePhase::LockingSession, Event::Ready) => {
                let dir = app.drop_session();
                self.phase = ClosePhase::Discarding;
                ActionOf::Discard(dir)
            },
            (ClosePhase::Discarding, Event::Ready) => {
                self.phase = ClosePhase::LockingChat;
                ActionOf::LockChat
            },
            (ClosePhase::LockingChat, Event::Ready) => {
                app.chat = false;
                self.end(
                    answer(
                        Reply { status: 200, body: one(text_field("state", "closed".to_owned())) },
                    ),
                )
            },
            _ => self.end(ActionOf::Misfit),
        }
    }
}

// ---------------------------------------------------------------------------
// Creating
// ---------------------------------------------------------------------------

/// How far a creation has come.
#[derive(Debug, Clone, Copy, PartialEq, Eq, Structural)]
pub enum InitPhase {
    Start,
    LockingVault,
    Probing,
    MakingKernel,
    Unlocking,
    MakingToken,
    Packing,
    Encrypting,
    Writing,
    LockingKernel,
    Reading,
    FetchingToken,
    LoadingKernel,
    Finished,
}

/// A request to create the vault.
pub struct InitRun {
    pub phase: InitPhase,
    pub password: String,
    /// The gateway that the vault is made with, and then the one that is read from it.
    pub gateway: Option<KeyGateway>,
    pub admin_token: String,
}

/// The mathematical content of a request to create the vault.
pub struct Creation {
    pub phase: InitPhase,
    pub password: Seq<char>,
    pub gateway: Option<Gateway>,
    pub admin_token: Seq<char>,
}

impl View for InitRun {
    type V = Creation;

    open spec fn view(&self) -> Creation {
        Creation {
            phase: self.phase,
            password: self.password@,
            gateway: match self.gateway {
                Some(g) => Some(g@),
                None => None,
            },
            admin_token: self.admin_token@,
        }
    }
}

pub open spec fn new_creation(password: Seq<char>) -> Creation {
    Creation { phase: InitPhase::Start, password, gateway: None, admin_token: ""@ }
}

pub open spec fn init_over(run: Creation, app: App, a: Act) -> (Creation, App, Act) {
    (Creation { phase: InitPhase::Finished, ..run }, app, a)
}

pub open spec fn init_probed(run: Creation, app: App, present: Seq<Seq<char>>) -> (
    Creation,
    App,
    Act,
) {
    if present.contains(container_at(app)) {
        init_over(run, app, fail_with(409, "vault 已存在"@))
    } else {
        (Creation { phase: InitPhase::MakingKernel, ..run }, app, ActionOf::NewKernel)
    }
}

pub open spec fn init_kernel(run: Creation, app: App, salt: Result<Vec<u8>, String>) -> (
    Creation,
    App,
    Act,
) {
    match salt {
        Err(why) => init_over(run, app, fail_with(500, why@)),
        Ok(salt) => {
            let g = fresh_gateway(salt@, None);
            (
                Creation { phase: InitPhase::Unlocking, gateway: Some(g), ..run },
                app,
                ActionOf::Kernel(opening(g, run.password)),
            )
        },
    }
}

pub open spec fn init_unlocked(
    run: Creation,
    app: App,
    g: Gateway,
    attempt: Unlocking,
    unlocked: bool,
) -> (Creation, App, Act) {
    let now = Creation { gateway: Some(Gateway { unlocked, ..g }), ..run };
    match unlocking_result(attempt) {
        Err(why) => init_over(now, app, fail_with(500, why)),
        Ok(()) => (
            Creation { phase: InitPhase::MakingToken, ..now },
            app,
            ActionOf::Kernel(KernelCallOf::GenerateToken),
        ),
    }
}

pub open spec fn init_token(run: Creation, app: App, g: Gateway, token: Result<Vec<u8>, String>) -> (
    Creation,
    App,
    Act,
) {
    match (g.token, token) {
        (None, Err(why)) => init_over(run, app, fail_with(500, why@)),
        (None, Ok(token)) => (
            Creation {
                phase: InitPhase::Packing,
                gateway: Some(Gateway { token: Some(token@), ..g }),
                ..run
            },
            app,
            ActionOf::PackEmpty,
        ),
        (Some(_), _) => (
            Creation { phase: InitPhase::Packing, ..run },
            app,
            ActionOf::PackEmpty,
        ),
    }
}

pub open spec fn init_packed(run: Creation, app: App, g: Gateway, packed: Result<Vec<u8>, String>) -> (
    Creation,
    App,
    Act,
) {
    match packed {
        Err(why) => init_over(run, app, fail_with(500, why@)),
        Ok(data) => if g.unlocked {
            (
                Creation { phase: InitPhase::Encrypting, ..run },
                app,
                ActionOf::Kernel(KernelCallOf::Encrypt(data@)),
            )
        } else {
            init_over(run, app, fail_with(500, gate_closed()))
        },
    }
}

pub open spec fn init_encrypted(
    run: Creation,
    app: App,
    g: Gateway,
    payload: Result<Vec<u8>, String>,
) -> (Creation, App, Act) {
    match payload {
        Err(why) => init_over(run, app, fail_with(500, why@)),
        Ok(payload) => match sealed(g, payload@) {
            Some(data) => (
                Creation { phase: InitPhase::Writing, ..run },
                app,
                ActionOf::WriteContainer { path: container_at(app), data },
            ),
            None => init_over(run, app, fail_with(500, "vault has no verify token"@)),
        },
    }
}

pub open spec fn init_written(run: Creation, app: App, r: Result<(), String>) -> (
    Creation,
    App,
    Act,
) {
    match r {
        Err(why) => init_over(run, app, fail_with(500, why@)),
        Ok(()) => (
            Creation { phase: InitPhase::LockingKernel, gateway: None, ..run },
            app,
            ActionOf::Kernel(KernelCallOf::Lock),
        ),
    }
}

pub open spec fn init_read(run: Creation, app: App, container: Result<Vec<u8>, String>) -> (
    Creation,
    App,
    Act,
) {
    match gateway_in(container) {
        Err(why) => init_over(run, app, fail_with(500, why)),
        Ok(g) => (
            Creation { phase: InitPhase::FetchingToken, gateway: Some(g), ..run },
            app,
            ActionOf::EnsureAdminToken(under(app.root, "admin.token"@)),
        ),
    }
}

pub open spec fn init_fetched(run: Creation, app: App, g: Gateway, token: Result<String, String>) -> (
    Creation,
    App,
    Act,
) {
    match token {
        Err(why) => init_over(run, app, fail_with(500, why@)),
        Ok(token) => (
            Creation { phase: InitPhase::LoadingKernel, admin_token: token@, ..run },
            app,
            ActionOf::LoadKernel(g.salt),
        ),
    }
}

/// What a request that created the vault is answered.
pub open spec fn creation_report(app: App) -> Answer {
    Answer {
        status: 200,
        body: seq![
            flag_member("created"@, true),
            text_member("container"@, container_at(app)),
            text_member(
                "hint"@,
                "admin token 已写入 admin.token（chmod 600），一键锁定需要它"@,
            ),
        ],
    }
}

/// What a request to create the vault does next: a container is made with a new key, for nothing,
/// the key is dropped, and the service goes on with the gateway that is read from the container.
pub open spec fn init_next(run: Creation, app: App, ev: Event) -> (Creation, App, Act) {
    match (run.phase, ev, run.gateway) {
        (InitPhase::Start, Event::Start, _) => if run.password.len() == 0 {
            init_over(run, app, fail_with(400, "password 不能为空"@))
        } else {
            (Creation { phase: InitPhase::LockingVault, ..run }, app, ActionOf::LockVault)
        },
        (InitPhase::LockingVault, Event::Ready, _) => (
            Creation { phase: InitPhase::Probing, ..run },
            app,
            ActionOf::Probe(container_at(app)),
        ),
        (InitPhase::Probing, Event::Present(present), _) => init_probed(run, app, texts(present@)),
        (InitPhase::MakingKernel, Event::Bytes(salt), _) => init_kernel(run, app, salt),
        (InitPhase::Unlocking, Event::Unlocked { attempt, unlocked }, Some(g)) => init_unlocked(
            run,
            app,
            g,
            attempt,
            unlocked,
        ),
        (InitPhase::MakingToken, Event::Bytes(token), Some(g)) => init_token(run, app, g, token),
        (InitPhase::Packing, Event::Bytes(packed), Some(g)) => init_packed(run, app, g, packed),
        (InitPhase::Encrypting, Event::Bytes(payload), Some(g)) => init_encrypted(
            run,
            app,
            g,
            payload,
        ),
        (InitPhase::Writing, Event::Done(r), _) => init_written(run, app, r),
        (InitPhase::LockingKernel, Event::Ready, _) => (
            Creation { phase: InitPhase::Reading, ..run },
            app,
            ActionOf::ReadContainer(container_at(app)),
        ),
        (InitPhase::Reading, Event::Bytes(container), _) => init_read(run, app, container),
        (InitPhase::FetchingToken, Event::Token(token), Some(g)) => init_fetched(
            run,
            app,
            g,
            token,
        ),
        (InitPhase::LoadingKernel, Event::Ready, Some(g)) => init_over(
            Creation { gateway: None, ..run },
            App { gateway: g, admin_token: run.admin_token, ..app },
            answer_with(creation_report(app)),
        ),
        _ => init_over(run, app, ActionOf::Misfit),
    }
}

impl InitRun {
    pub fn new(password: String) -> (run: InitRun)
        ensures
            run@ == new_creation(password@),
    {
        InitRun { phase: InitPhase::Start, password, gateway: None, admin_token: "".to_owned() }
    }

    fn end(&mut self, a: Action) -> (r: Action)
        ensures
            final(self)@ == (Creation { phase: InitPhase::Finished, ..old(self)@ }),
            r == a,
    {
        self.phase = InitPhase::Finished;
        a
    }

    fn kernel(&mut self, app: &AppState, salt: Result<Vec<u8>, String>) -> (a: Action)
        ensures
            (final(self)@, app@, a@) == init_kernel(old(self)@, app@, salt),
    {
        match KeyGateway::new(salt) {
            Err(why) => self.end(fail(500, why)),
            Ok(g) => {
                let call = g.open(self.password.as_str());
                self.gateway = Some(g);
                self.phase = InitPhase::Unlocking;
                ActionOf::Kernel(call)
            },
        }
    }

    fn unlocked(&mut self, app: &AppState, g: KeyGateway, attempt: Unlocking, unlocked: bool) -> (a:
        Action)
        ensures
            (final(self)@, app@, a@) == init_unlocked(
                old(self)@,
                app@,
                g@,
                attempt,
                unlocked,
            ),
    {
        let mut g = g;
        let r = g.opened(attempt, unlocked);
        self.gateway = Some(g);
        match r {
            Err(why) => self.end(fail(500, why)),
            Ok(()) => {
                self.phase = InitPhase::MakingToken;
                ActionOf::Kernel(KernelCallOf::GenerateToken)
            },
        }
    }

    fn token(&mut self, app: &AppState, g: KeyGateway, token: Result<Vec<u8>, String>) -> (a: Action)
        ensures
            (final(self)@, app@, a@) == init_token(
                Creation { gateway: Some(g@), ..old(self)@ },
                app@,
                g@,
                token,
            ),
    {
        let mut g = g;
        let r = g.ensure_verify_token(token);
        self.gateway = Some(g);
        match r {
            Err(why) => self.end(fail(500, why)),
            Ok(_) => {
                self.phase = InitPhase::Packing;
                ActionOf::PackEmpty
            },
        }
    }

    fn packed(&mut self, app: &AppState, g: KeyGateway, packed: Result<Vec<u8>, String>) -> (a:
        Action)
        ensures
            (final(self)@, app@, a@) == init_packed(
                Creation { gateway: Some(g@), ..old(self)@ },
                app@,
                g@,
                packed,
            ),
    {
        let data = match packed {
            Ok(data) => data,
            Err(why) => {
                self.gateway = Some(g);
                return self.end(fail(500, why));
            },
        };
        let r = g.encrypt(data);
        self.gateway = Some(g);
        match r {
            Ok(call) => {
                self.phase = InitPhase::Encrypting;
                ActionOf::Kernel(call)
            },
            Err(why) => self.end(fail(500, why)),
        }
    }

    fn encrypted(&mut self, app: &AppState, g: KeyGateway, payload: Result<Vec<u8>, String>) -> (a:
        Action)
        ensures
            (final(self)@, app@, a@) == init_encrypted(
                Creation { gateway: Some(g@), ..old(self)@ },
                app@,
                g@,
                payload,
            ),
    {
        let payload = match payload {
            Ok(payload) => payload,
            Err(why) => {
                self.gateway = Some(g);
                return self.end(fail(500, why));
            },
        };
        let r = app.vault.seal_payload(&g, payload);
        self.gateway = Some(g);
        match r {
            Ok(data) => {
                self.phase = InitPhase::Writing;
                ActionOf::WriteContainer { path: app.vault.container_path(), data }
            },
            Err(why) => self.end(fail(500, why)),
        }
    }

    fn read(&mut self, app: &AppState, container: Result<Vec<u8>, String>) -> (a: Action)
        ensures
            (final(self)@, app@, a@) == init_read(old(self)@, app@, container),
    {
        match Vault::gateway_from_container(container) {
            Err(why) => self.end(fail(500, why)),
            Ok(g) => {
                self.gateway = Some(g);
                self.phase = InitPhase::FetchingToken;
                ActionOf::EnsureAdminToken(app.vault.admin_token_path())
            },
        }
    }

    fn loaded(&mut self, app: &mut AppState, g: KeyGateway) -> (a: Action)
        ensures
            (final(self)@, final(app)@, a@) == init_over(
                Creation { gateway: None, ..old(self)@ },
                App { gateway: g@, admin_token: old(self)@.admin_token, ..old(app)@ },
                answer_with(creation_report(old(app)@)),
            ),
    {
        app.gateway = g;
        app.admin_token = self.admin_token.clone();
        self.gateway = None;
        let container = app.vault.container_path();
        self.end(
            answer(
                Reply {
                    status: 200,
                    body: three(
                        flag_field("created", true),
                        text_field("container", container),
                        text_field(
                            "hint",
                            "admin token 已写入 admin.token（chmod 600），一键锁定需要它".to_owned(),
                        ),
                    ),
                },
            ),
        )
    }

    /// What is to be done next.
    pub fn next(&mut self, app: &mut AppState, ev: Event) -> (a: Action)
        ensures
            (final(self)@, final(app)@, a@) == init_next(old(self)@, old(app)@, ev),
    {
        match (self.phase, ev) {
            (InitPhase::Start, Event::Start) => {
                if self.password.as_str().is_empty() {
                    self.end(fail(400, "password 不能为空".to_owned()))
                } else {
                    self.phase = InitPhase::LockingVault;
                    ActionOf::LockVault
                }
            },
            (InitPhase::LockingVault, Event::Ready) => {
                self.phase = InitPhase::Probing;
                ActionOf::Probe(app.vault.container_path())
            },
            (InitPhase::Probing, Event::Present(present)) => {
                if app.vault.is_present(&present) {
                    self.end(fail(409, "vault 已存在".to_owned()))
                } else {
                    self.phase = InitPhase::MakingKernel;
                    ActionOf::NewKernel
                }
            },
            (InitPhase::MakingKernel, Event::Bytes(salt)) => self.kernel(app, salt),
            (InitPhase::Unlocking, Event::Unlocked { attempt, unlocked }) => {
                match self.gateway.take() {
                    Some(g) => self.unlocked(app, g, attempt, unlocked),
                    None => self.end(ActionOf::Misfit),
                }
            },
            (InitPhase::MakingToken, Event::Bytes(token)) => {
                match self.gateway.take() {
                    Some(g) => self.token(app, g, token),
                    None => self.end(ActionOf::Misfit),
                }
            },
            (InitPhase::Packing, Event::Bytes(packed)) => {
                match self.gateway.take() {
                    Some(g) => self.packed(app, g, packed),
                    None => self.end(ActionOf::Misfit),
                }
            },
            (InitPhase::Encrypting, Event::Bytes(payload)) => {
                match self.gateway.take() {
                    Some(g) => self.encrypted(app, g, payload),
                    None => self.end(ActionOf::Misfit),
                }
            },
            (InitPhase::Writing, Event::Done(r)) => {
                match r {
                    Err(why) => self.end(fail(500, why)),
                    Ok(()) => {
                        self.gateway = None;
                        self.phase = InitPhase::LockingKernel;
                        ActionOf::Kernel(KernelCallOf::Lock)
                    },
                }
            },
            (InitPhase::LockingKernel, Event::Ready) => {
                self.phase = InitPhase::Reading;
                ActionOf::ReadContainer(app.vault.container_path())
            },
            (InitPhase::Reading, Event::Bytes(container)) => self.read(app, container),
            (InitPhase::FetchingToken, Event::Token(token)) => {
                match self.gateway.take() {
                    Some(g) => {
                        let salt = crate::gateway::copy_bytes(g.salt());
                        self.gateway = Some(g);
                        match token {
                            Err(why) => self.end(fail(500, why)),
                            Ok(token) => {
                                self.admin_token = token;
                                self.phase = InitPhase::LoadingKernel;
                                ActionOf::LoadKernel(salt)
                            },
                        }
                    },
                    None => self.end(ActionOf::Misfit),
                }
            },
            (InitPhase::LoadingKernel, Event::Ready) => {
                match self.gateway.take() {
                    Some(g) => self.loaded(app, g),
                    None => self.end(ActionOf::Misfit),
                }
            },
            _ => self.end(ActionOf::Misfit),
        }
    }
}

// ---------------------------------------------------------------------------
// Locking another service's vault
// ---------------------------------------------------------------------------

/// Where a service on `host` is told to lock its vault.
pub open spec fn close_address(host: Seq<char>) -> Seq<char> {
    "http://"@ + host + "/api/gateway/close"@
}

/// What the answer to such a request means.
pub open spec fn close_verdict(status: u16, shown: Seq<char>) -> Result<(), Seq<char>> {
    if status == 403 {
        Err("remote close rejected: invalid admin token"@)
    } else if 200 <= status < 300 {
        Ok(())
    } else {
        Err("remote close failed: HTTP "@ + shown)
    }
}

/// Where a service on `host` is told to lock its vault.
pub fn remote_close_url(host: &str) -> (url: String)
    ensures
        url@ == close_address(host@),
{
    cat3("http://", host, "/api/gateway/close")
}

/// What the answer to such a request means, from its status and how that is shown.
pub fn remote_close_result(status: u16, shown: &str) -> (r: Result<(), String>)
    ensures
        said(r) == close_verdict(status, shown@),
{
    if status == 403 {
        return Err("remote close rejected: invalid admin token".to_owned());
    }
    if !(200 <= status && status < 300) {
        return Err(cat("remote close failed: HTTP ", shown));
    }
    Ok(())
}

// ---------------------------------------------------------------------------
// Laws
// ---------------------------------------------------------------------------

/// A request to lock with a wrong token changes nothing; with the right one the gateway is closed and
/// every session ended at once.
pub proof fn law_only_the_token_locks(token: Seq<char>, stamp: Seq<char>, app: App)
    ensures
        ({
            let run = Closer { phase: ClosePhase::Start, token, stamp };
            let (_, now, a) = close_next(run, app, Event::Start);
            &&& token != app.admin_token ==> now == app && a == fail_with(
                403,
                "invalid admin token"@,
            )
            &&& token == app.admin_token ==> !now.gateway.unlocked
                && now.gateway.sessions.dom() =~= Set::<Seq<char>>::empty()
                && now.gateway.closed_at == Some(stamp) && a == Act::Kernel(KernelCallOf::Lock)
            &&& token == app.admin_token ==> (now.session matches Some(s) ==> s.terminate)
        }),
{
}

/// Locking that runs to its end, with no other request between its steps, leaves no session, no
/// chat and a closed gateway, and hands the session's directory over to be destroyed.
pub proof fn law_locking_leaves_nothing(stamp: Seq<char>, app: App)
    ensures
        ({
            let run = Closer { phase: ClosePhase::Start, token: app.admin_token, stamp };
            let (r1, s1, a1) = close_next(run, app, Event::Start);
            let (r2, s2, a2) = close_next(r1, s1, Event::Ready);
            let (r3, s3, a3) = close_next(r2, s2, Event::Ready);
            let (r4, s4, a4) = close_next(r3, s3, Event::Ready);
            let (r5, s5, a5) = close_next(r4, s4, Event::Ready);
            &&& a3 == Act::Discard(session_dir(app))
            &&& a5 == answer_with(
                Answer { status: 200, body: seq![text_member("state"@, "closed"@)] },
            )
            &&& !s5.gateway.unlocked
            &&& s5.session is None
            &&& !s5.chat
        }),
{
}

/// Locking seals nothing: what was not sealed before is given up.
pub proof fn law_locking_seals_nothing(run: Closer, app: App, ev: Event)
    ensures
        !(close_next(run, app, ev).2 is Seal),
        !(close_next(run, app, ev).2 is WriteContainer),
        !(close_next(run, app, ev).2 is Commit),
{
}

/// A vault that was unlocked has a session to work in.
pub proof fn law_unlocking_opens_a_session(run: Opener, app: App, ev: Event)
    requires
        open_next(run, app, ev).2 matches ActionOf::Respond { status, body } && status == 200,
    ensures
        run.phase == OpenPhase::Opening,
        open_next(run, app, ev).1.session is Some,
        open_next(run, app, ev).1.gateway.unlocked == app.gateway.unlocked,
{
}

/// A wrong password is answered 403, and opens no session; without a vault no password is tried.
pub proof fn law_wrong_passwords_open_nothing(
    run: Opener,
    app: App,
    attempt: Unlocking,
    present: Seq<Seq<char>>,
)
    requires
        attempt is Tried,
        unlocking_result(attempt) is Err,
    ensures
        open_unlocked(run, app, attempt, false).2 == fail_with(403, unlocking_result(attempt)->Err_0),
        open_unlocked(run, app, attempt, false).1.session == app.session,
        !open_unlocked(run, app, attempt, false).1.gateway.unlocked,
        !present.contains(container_at(app)) ==> open_probed(run, app, present).1 == app && (
        open_probed(run, app, present).2 matches ActionOf::Respond { status, body } && status
            == 409),
{
}

/// An unlocking that is overtaken by a locking opens nothing: the gateway that was closed after the
/// password was handed to the kernel stays closed, whatever the attempt came to.
pub proof fn law_overtaken_unlocking_opens_nothing(
    run: Opener,
    before: App,
    present: Seq<Seq<char>>,
    closer: Closer,
    between: App,
    after: App,
    attempt: Unlocking,
    unlocked: bool,
)
    requires
        open_probed(run, before, present).2 is Kernel,
        closer.phase == ClosePhase::Start,
        closer.token == between.admin_token,
        before.gateway.closed_at != Some(closer.stamp),
        after.gateway.closed_at == close_next(closer, between, Event::Start).1.gateway.closed_at,
    ensures
        ({
            let trying = open_probed(run, before, present).0;
            let (_, now, _) = open_next(trying, after, Event::Unlocked { attempt, unlocked });
            now.gateway == (Gateway { unlocked: false, ..after.gateway })
        }),
{
}

/// The gateway goes by the kernel. Where nothing comes between the call and what it came to, an
/// unlocking records whether the kernel holds a key after it, and a locking has it drop the key as
/// it closes the gateway.
pub proof fn law_the_gateway_goes_by_the_kernel(
    opener: Opener,
    closer: Closer,
    app: App,
    ev: Event,
    attempt: Unlocking,
    unlocked: bool,
)
    ensures
        open_next(opener, app, ev).2 is Kernel ==> ({
            let (trying, now, _) = open_next(opener, app, ev);
            let told = open_next(trying, now, Event::Unlocked { attempt, unlocked }).1;
            now == app && told.gateway == (Gateway { unlocked, ..app.gateway })
        }),
        opener.phase != OpenPhase::Unlocking ==> open_next(opener, app, ev).1.gateway.unlocked
            == app.gateway.unlocked,
        close_next(closer, app, ev).2 is Kernel ==> close_next(closer, app, ev).2 == Act::Kernel(
            KernelCallOf::Lock,
        ) && !close_next(closer, app, ev).1.gateway.unlocked,
        !(close_next(closer, app, ev).2 is Kernel) ==> close_next(
            closer,
            app,
            ev,
        ).1.gateway.unlocked == app.gateway.unlocked,
{
}

/// An existing vault is never created anew: its container is written only after it was found that
/// there is none.
pub proof fn law_vaults_are_created_once(run: Creation, app: App, ev: Event)
    ensures
        run.phase == InitPhase::Probing && (ev matches Event::Present(present) && texts(
            present@,
        ).contains(container_at(app))) ==> init_next(run, app, ev).2 == fail_with(
            409,
            "vault 已存在"@,
        ),
        init_next(run, app, ev).2 is NewKernel ==> run.phase == InitPhase::Probing && (
        ev matches Event::Present(present) && !texts(present@).contains(container_at(app))),
        init_next(run, app, ev).2 is WriteContainer ==> run.phase == InitPhase::Encrypting,
        init_next(run, app, ev).0.phase == InitPhase::Encrypting ==> run.phase
            == InitPhase::Packing,
        init_next(run, app, ev).0.phase == InitPhase::Packing ==> run.phase
            == InitPhase::MakingToken,
        init_next(run, app, ev).0.phase == InitPhase::MakingToken ==> run.phase
            == InitPhase::Unlocking,
        init_next(run, app, ev).0.phase == InitPhase::Unlocking ==> run.phase
            == InitPhase::MakingKernel,
        init_next(run, app, ev).0.phase == InitPhase::MakingKernel ==> init_next(
            run,
            app,
            ev,
        ).2 is NewKernel,
{
}

/// A vault that was created is locked: the service goes on with a gateway that holds no key and
/// tries passwords on the token that was written into the container.
pub proof fn law_new_vaults_are_locked(run: Creation, app: App, container: Result<Vec<u8>, String>)
    ensures
        init_read(run, app, container).0.phase == InitPhase::FetchingToken ==> (init_read(
            run,
            app,
            container,
        ).0.gateway matches Some(g) && !g.unlocked && g.token is Some
            && g.sessions.dom() =~= Set::<Seq<char>>::empty()),
{
}

/// An unlocking from its beginning to its end, with the state of the service at each of its steps: the
/// password that was given is tried on the token of the gateway, where it has one; a wrong one is
/// told; and a session is opened in place of the one there was, which is destroyed.
pub proof fn law_unlocking_tries_the_password(
    password: Seq<char>,
    a0: App,
    a1: App,
    a2: App,
    a3: App,
    a4: App,
    a5: App,
    present: Vec<String>,
    attempt: Unlocking,
    unlocked: bool,
    opened: Result<(String, String), String>,
)
    ensures
        ({
            let first = Opener { phase: OpenPhase::Start, password, closed_at: None };
            let (r1, s1, probe) = open_next(first, a0, Event::Start);
            let (r2, s2, try_it) = open_next(r1, a1, Event::Present(present));
            let (r3, s3, go) = open_next(r2, a2, Event::Unlocked { attempt, unlocked });
            let (r4, s4, alone) = open_next(r3, a3, Event::Ready);
            let (r5, s5, open) = open_next(r4, a4, Event::Ready);
            let (r6, s6, end) = open_next(r5, a5, Event::Opened(opened));
            &&& new_opener(password) == first
            &&& s1 == a0
            &&& probe == Act::Probe(under(a0.root, "vault.mwenc"@))
            &&& s2 == a1
            &&& !texts(present@).contains(under(a1.root, "vault.mwenc"@)) ==> refuses(
                try_it,
                409,
                "vault 不存在：请先创建知识库（POST /api/vault/init）"@,
            )
            &&& texts(present@).contains(under(a1.root, "vault.mwenc"@)) ==> {
                &&& try_it == Act::Kernel(
                    match a1.gateway.token {
                        Some(token) => KernelCallOf::UnlockWithVerify { password, token },
                        None => KernelCallOf::Unlock { password },
                    },
                )
                &&& s3.gateway.unlocked <==> unlocked && a2.gateway.closed_at
                    == a1.gateway.closed_at
                &&& s3 == (App {
                    gateway: Gateway { unlocked: s3.gateway.unlocked, ..a2.gateway },
                    ..a2
                })
                &&& match attempt {
                    Unlocking::Tried(Ok(fits)) => if fits {
                        go == Act::LockVault
                    } else {
                        refuses(go, 403, "wrong password"@)
                    },
                    Unlocking::Tried(Err(why)) => refuses(go, 403, why@),
                    Unlocking::Derived => go == Act::LockVault,
                }
                &&& go == Act::LockVault ==> {
                    &&& s4 == a3
                    &&& alone == Act::LockSession
                    &&& open == Act::OpenSession { discard: session_dir(a4) }
                    &&& s5.session is None
                    &&& s5.gateway.unlocked == a4.gateway.unlocked
                    &&& a4.session matches Some(s) ==> s5.gateway.sessions
                        == a4.gateway.sessions.remove(s.id)
                    &&& match opened {
                        Ok((id, dir)) => reports(
                            end,
                            seq![Member { key: "state"@, value: ValueOf::Text("open"@) }],
                        ) && (s6.session matches Some(s) && s.id == id@ && s.work_dir == dir@
                            && !s.terminate) && s6.gateway.sessions == a5.gateway.sessions.insert(
                            id@,
                            dir@,
                        ) && s6.gateway.unlocked == a5.gateway.unlocked,
                        Err(why) => s6 == a5 && refuses(
                            end,
                            500,
                            "解密会话创建失败："@ + why@,
                        ),
                    }
                }
            }
        }),
{
}

/// A locking goes on from step to step: once the key is dropped, the session is waited for and
/// destroyed, then the chat is waited for and ended. Nothing else changes.
pub proof fn law_locking_goes_on(run: Closer, app: App)
    ensures
        ({
            let (now, after, a) = close_next(run, app, Event::Ready);
            &&& run.phase == ClosePhase::LockingKernel ==> now.phase == ClosePhase::LockingSession
                && after == app && a == Act::LockSession
            &&& run.phase == ClosePhase::LockingSession ==> now.phase == ClosePhase::Discarding
                && after.session is None && a == Act::Discard(session_dir(app)) && (
            app.session matches Some(s) ==> after.gateway.sessions == app.gateway.sessions.remove(
                s.id,
            ))
            &&& run.phase == ClosePhase::Discarding ==> now.phase == ClosePhase::LockingChat
                && after == app && a == Act::LockChat
            &&& run.phase == ClosePhase::LockingChat ==> after == (App { chat: false, ..app })
                && reports(a, seq![Member { key: "state"@, value: ValueOf::Text("closed"@) }])
            &&& after.llm == app.llm
            &&& after.root == app.root
            &&& after.admin_token == app.admin_token
            &&& after.skills_root == app.skills_root
            &&& after.config_path == app.config_path
        }),
        ({
            let (now, after, a) = close_next(run, app, Event::Start);
            &&& run.phase == ClosePhase::Start && run.token == app.admin_token ==> now.phase
                == ClosePhase::LockingKernel && after.llm == app.llm && after.chat == app.chat
                && after.admin_token == app.admin_token && after.root == app.root
                && after.gateway.salt == app.gateway.salt && after.gateway.token
                == app.gateway.token && session_dir(after) == session_dir(app)
            &&& run.phase == ClosePhase::Start && run.token != app.admin_token ==> refuses(
                a,
                403,
                "invalid admin token"@,
            )
        }),
{
}

/// A creation after some steps, each with the state of the service at that moment, which other
/// requests may have changed, and with what the last action came to.
pub open spec fn init_after(run: Creation, steps: Steps) -> Creation
    decreases steps.len(),
{
    if steps.len() == 0 {
        run
    } else {
        let last = steps.last();
        init_next(init_after(run, steps.drop_last()), last.0, last.1).0
    }
}

/// What the last of some steps asks for.
pub open spec fn init_last(run: Creation, steps: Steps) -> Act
    recommends
        steps.len() > 0,
{
    let last = steps.last();
    init_next(init_after(run, steps.drop_last()), last.0, last.1).2
}

/// The phases of a creation in their order.
spec fn place(p: InitPhase) -> int {
    match p {
        InitPhase::Start => 0,
        InitPhase::LockingVault => 1,
        InitPhase::Probing => 2,
        InitPhase::MakingKernel => 3,
        InitPhase::Unlocking => 4,
        InitPhase::MakingToken => 5,
        InitPhase::Packing => 6,
        InitPhase::Encrypting => 7,
        InitPhase::Writing => 8,
        InitPhase::LockingKernel => 9,
        InitPhase::Reading => 10,
        InitPhase::FetchingToken => 11,
        InitPhase::LoadingKernel => 12,
        InitPhase::Finished => 13,
    }
}

/// What a creation holds is what it was asked for and what it was told.
spec fn knows(password: Seq<char>, steps: Steps) -> bool {
    let run = init_after(new_creation(password), steps);
    let at = place(run.phase);
    let bytes = told_bytes(steps);
    &&& run.password == password
    &&& at == 0 ==> steps.len() == 0
    &&& 1 <= at <= 12 ==> password.len() > 0
    &&& 0 <= at <= 3 ==> bytes.len() == 0
    &&& 4 <= at <= 5 ==> bytes.len() == 1 && (run.gateway matches Some(g) && g.salt == bytes[0]
        && g.token is None)
    &&& 6 <= at <= 7 ==> (run.gateway matches Some(g) && g.salt == bytes[0] && g.token == Some(
        bytes[1],
    ))
    &&& at == 6 ==> bytes.len() == 2
    &&& at == 7 ==> bytes.len() == 3
    &&& 8 <= at <= 10 ==> bytes.len() == 4
    &&& 11 <= at <= 12 ==> bytes.len() == 5 && is_container(bytes[4]) && (run.gateway matches Some(g)
        && !g.unlocked && g.salt == contents_of(bytes[4]).salt && g.token == Some(
        contents_of(bytes[4]).verify_token,
    ) && g.sessions == Map::<Seq<char>, Seq<char>>::empty() && g.closed_at is None)
    &&& 0 <= at <= 11 ==> told_token(steps) is None
    &&& at == 12 ==> Some(run.admin_token) == told_token(steps)
}

#[verifier::spinoff_prover]
#[verifier::rlimit(60)]
proof fn lemma_knows(password: Seq<char>, steps: Steps)
    ensures
        knows(password, steps),
    decreases steps.len(),
{
    if steps.len() > 0 {
        lemma_knows(password, steps.drop_last());
    }
}

/// What a creation does, at every step of every run: a key is derived from the password that was
/// given; what is encrypted is the empty wiki that was packed; the container that is written holds
/// the salt of the new kernel, the token that it made and what it encrypted; and the service goes
/// on, locked, with what it reads back out of the container, and with the admin token.
pub proof fn law_creation_writes_the_container(password: Seq<char>, steps: Steps)
    requires
        steps.len() > 0,
    ensures
        ({
            let app = steps.last().0;
            let bytes = told_bytes(steps);
            let now = init_next(
                init_after(new_creation(password), steps.drop_last()),
                app,
                steps.last().1,
            ).1;
            match init_last(new_creation(password), steps) {
                ActionOf::Probe(path) => path == under(app.root, "vault.mwenc"@) && now == app,
                ActionOf::Kernel(call) => now == app && match call {
                    KernelCallOf::Unlock { password: p } => p == password,
                    KernelCallOf::Encrypt(data) => bytes.len() == 3 && data == bytes[2],
                    KernelCallOf::GenerateToken => true,
                    KernelCallOf::Lock => true,
                    _ => false,
                },
                ActionOf::WriteContainer { path, data } => now == app && path == under(
                    app.root,
                    "vault.mwenc"@,
                ) && bytes.len() == 4 && data == container_bytes(
                    Contents { salt: bytes[0], verify_token: bytes[1], payload: bytes[3] },
                ),
                ActionOf::ReadContainer(path) => now == app && path == under(
                    app.root,
                    "vault.mwenc"@,
                ),
                ActionOf::EnsureAdminToken(path) => now == app && path == under(
                    app.root,
                    "admin.token"@,
                ),
                ActionOf::LoadKernel(salt) => now == app && bytes.len() == 5 && salt
                    == contents_of(bytes[4]).salt,
                ActionOf::Respond { status, body } => if status == 200 {
                    &&& bytes.len() == 5
                    &&& body == seq![
                        Member { key: "created"@, value: ValueOf::Flag(true) },
                        Member {
                            key: "container"@,
                            value: ValueOf::Text(under(app.root, "vault.mwenc"@)),
                        },
                        Member {
                            key: "hint"@,
                            value: ValueOf::Text(
                                "admin token 已写入 admin.token（chmod 600），一键锁定需要它"@,
                            ),
                        },
                    ]
                    &&& now == (App {
                        gateway: Gateway {
                            unlocked: false,
                            salt: contents_of(bytes[4]).salt,
                            token: Some(contents_of(bytes[4]).verify_token),
                            sessions: Map::empty(),
                            closed_at: None,
                        },
                        admin_token: told_token(steps)->0,
                        ..app
                    })
                    &&& told_token(steps) is Some
                } else {
                    now == app
                },
                _ => now == app,
            }
        }),
{
    lemma_knows(password, steps.drop_last());
    lemma_knows(password, steps);
}

/// A creation goes on from step to step as long as nothing goes wrong.
pub proof fn law_creation_goes_on(password: Seq<char>, steps: Steps, app: App, ev: Event)
    ensures
        ({
            let run = init_after(new_creation(password), steps);
            let (now, _, a) = init_next(run, app, ev);
            &&& run.phase == InitPhase::Start && ev is Start ==> (if password.len() == 0 {
                refuses(a, 400, "password 不能为空"@)
            } else {
                a == Act::LockVault && now.phase == InitPhase::LockingVault
            })
            &&& run.phase == InitPhase::LockingVault && ev is Ready ==> a is Probe && now.phase
                == InitPhase::Probing
            &&& run.phase == InitPhase::Probing ==> (ev matches Event::Present(present) ==> (if texts(
                present@,
            ).contains(under(app.root, "vault.mwenc"@)) {
                refuses(a, 409, "vault 已存在"@)
            } else {
                a == Act::NewKernel && now.phase == InitPhase::MakingKernel
            }))
            &&& run.phase == InitPhase::MakingKernel && (ev matches Event::Bytes(r) && r is Ok)
                ==> a is Kernel && now.phase == InitPhase::Unlocking
            &&& run.phase == InitPhase::Unlocking ==> (ev matches Event::Unlocked {
                attempt,
                unlocked,
            } ==> (match attempt {
                Unlocking::Tried(Ok(fits)) => if fits {
                    a == Act::Kernel(KernelCallOf::GenerateToken) && now.phase
                        == InitPhase::MakingToken
                } else {
                    refuses(a, 500, "wrong password"@)
                },
                Unlocking::Tried(Err(why)) => refuses(a, 500, why@),
                Unlocking::Derived => a == Act::Kernel(KernelCallOf::GenerateToken) && now.phase
                    == InitPhase::MakingToken,
            }) && (now.gateway matches Some(g) && (g.unlocked <==> unlocked)))
            &&& run.phase == InitPhase::MakingToken && (ev matches Event::Bytes(r) && r is Ok) ==> a
                == Act::PackEmpty && now.phase == InitPhase::Packing
            &&& run.phase == InitPhase::Packing && (ev matches Event::Bytes(r) && r is Ok) ==> (
            run.gateway matches Some(g) && (if g.unlocked {
                a is Kernel && now.phase == InitPhase::Encrypting
            } else {
                refuses(a, 500, "key gateway closed — all ciphertext is inert"@)
            }))
            &&& run.phase == InitPhase::Encrypting && (ev matches Event::Bytes(r) && r is Ok) ==> a
                is WriteContainer && now.phase == InitPhase::Writing
            &&& run.phase == InitPhase::Writing && (ev matches Event::Done(r) && r is Ok) ==> a
                == Act::Kernel(KernelCallOf::Lock) && now.phase == InitPhase::LockingKernel
            &&& run.phase == InitPhase::LockingKernel && ev is Ready ==> a is ReadContainer
                && now.phase == InitPhase::Reading
            &&& run.phase == InitPhase::Reading ==> (ev matches Event::Bytes(Ok(data)) ==> (if is_container(
                data@,
            ) {
                a is EnsureAdminToken && now.phase == InitPhase::FetchingToken
            } else {
                a matches ActionOf::Respond { status, body } && status == 500
            }))
            &&& run.phase == InitPhase::FetchingToken && (ev matches Event::Token(r) && r is Ok)
                ==> a is LoadKernel && now.phase == InitPhase::LoadingKernel
            &&& run.phase == InitPhase::LoadingKernel && ev is Ready ==> (
            a matches ActionOf::Respond { status, body } && status == 200)
        }),
{
    lemma_knows(password, steps);
}

/// What a creation is answered when something goes wrong on its way.
pub proof fn law_creation_says_what_went_wrong(
    password: Seq<char>,
    steps: Steps,
    app: App,
    why: String,
)
    ensures
        ({
            let run = init_after(new_creation(password), steps);
            let bytes = init_next(run, app, Event::Bytes(Err(why))).2;
            &&& run.phase == InitPhase::MakingKernel || run.phase == InitPhase::MakingToken
                || run.phase == InitPhase::Packing || run.phase == InitPhase::Encrypting
                ==> refuses(bytes, 500, why@)
            &&& run.phase == InitPhase::Reading ==> refuses(bytes, 500, "read vault container"@)
            &&& run.phase == InitPhase::Writing ==> refuses(
                init_next(run, app, Event::Done(Err(why))).2,
                500,
                why@,
            )
            &&& run.phase == InitPhase::FetchingToken ==> refuses(
                init_next(run, app, Event::Token(Err(why))).2,
                500,
                why@,
            )
        }),
{
    lemma_knows(password, steps);
}

/// A service elsewhere is told to lock at its own address, and what it answers is taken by its
/// status: refused, done, or failed.
pub proof fn law_remote_locking(host: Seq<char>, status: u16, shown: Seq<char>)
    ensures
        close_address(host) == "http://"@ + host + "/api/gateway/close"@,
        status == 403 ==> close_verdict(status, shown) == Err::<(), Seq<char>>(
            "remote close rejected: invalid admin token"@,
        ),
        200 <= status <= 299 ==> close_verdict(status, shown) is Ok,
        status != 403 && !(200 <= status <= 299) ==> close_verdict(status, shown) == Err::<
            (),
            Seq<char>,
        >("remote close failed: HTTP "@ + shown),
{
}


/// Nothing is encrypted by a gateway that holds no key, and nothing is written that no password could
/// be tried on later: a creation that has come so far ends, and says why.
pub proof fn law_creation_needs_a_key_and_a_token(run: Creation, app: App, data: Vec<u8>)
    requires
        run.gateway is Some,
    ensures
        ({
            let a = init_next(run, app, Event::Bytes(Ok(data))).2;
            &&& run.phase == InitPhase::Packing && !run.gateway->0.unlocked ==> refuses(
                a,
                500,
                "key gateway closed — all ciphertext is inert"@,
            )
            &&& run.phase == InitPhase::Encrypting && run.gateway->0.token is None ==> refuses(
                a,
                500,
                "vault has no verify token"@,
            )
        }),
{
}

} // verus!
