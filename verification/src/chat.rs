//! The chat: one conversation with an agent that goes on from request to request, until the vault
//! is locked, the settings change, or it is begun anew.

use crate::entry::session_agent;
#[allow(unused_imports)]
use crate::agent::AgentModel;
#[allow(unused_imports)]
use crate::entry::agent_for;
use crate::flow::{answer, fail, fail_stream, Action, ActionOf, Event};
#[allow(unused_imports)]
use crate::flow::{answer_with, break_with, fail_with, maybe, Act};
#[allow(unused_imports)]
use crate::history::{breaks, refuses, reports, session_found, turns_away, Steps};
use crate::llm::LlmEnv;
#[allow(unused_imports)]
use crate::llm::loaded_settings;
#[allow(unused_imports)]
use crate::paths::under;
use crate::reply::{flag_field, one, text_field, two, Reply};
#[allow(unused_imports)]
use crate::reply::{flag_member, text_member, Answer, Member, ValueOf};
use crate::state::{AppState, NO_LLM};
#[allow(unused_imports)]
use crate::state::{llm_ready, locked_out, with_fresh_llm, with_session, App};
use crate::text::is_blank;
#[allow(unused_imports)]
use crate::text::trim;
use vstd::prelude::*;

verus! {

/// How far a message has come.
#[derive(Debug, Clone, Copy, PartialEq, Eq, Structural)]
pub enum ChatPhase {
    Start,
    Configuring,
    Streaming,
    Locking,
    Sharing,
    LockingSession,
    Opening,
    Reading,
    Creating,
    Sending,
    Finished,
}

/// A message that is being worked off.
pub struct ChatRun {
    pub phase: ChatPhase,
    pub message: String,
    /// The directory of the session.
    pub work: String,
}

/// The mathematical content of a message.
pub struct Chatting {
    pub phase: ChatPhase,
    pub message: Seq<char>,
    pub work: Seq<char>,
}

impl View for ChatRun {
    type V = Chatting;

    open spec fn view(&self) -> Chatting {
        Chatting { phase: self.phase, message: self.message@, work: self.work@ }
    }
}

/// A message that has not been looked at.
pub open spec fn new_message(message: Seq<char>) -> Chatting {
    Chatting { phase: ChatPhase::Start, message, work: ""@ }
}

/// A message that goes no further.
pub open spec fn over(run: Chatting, app: App, a: Act) -> (Chatting, App, Act) {
    (Chatting { phase: ChatPhase::Finished, ..run }, app, a)
}

pub open spec fn chat_gate(run: Chatting, app: App) -> (Chatting, App, Act) {
    if !app.gateway.unlocked {
        over(run, app, answer_with(locked_out()))
    } else if trim(run.message).len() == 0 {
        over(run, app, fail_with(400, "message 不能为空"@))
    } else {
        (Chatting { phase: ChatPhase::Streaming, ..run }, app, ActionOf::StartStream)
    }
}

pub open spec fn chat_start(run: Chatting, app: App) -> (Chatting, App, Act) {
    if llm_ready(app) {
        chat_gate(run, app)
    } else {
        (Chatting { phase: ChatPhase::Configuring, ..run }, app, ActionOf::LoadLlm(app.config_path))
    }
}

pub open spec fn chat_configured(run: Chatting, app: App, file: Option<String>, env: LlmEnv) -> (
    Chatting,
    App,
    Act,
) {
    if loaded_settings(file, env).api_key.len() > 0 {
        chat_gate(run, with_fresh_llm(app, file, env))
    } else {
        over(run, app, fail_with(503, NO_LLM@))
    }
}

/// Says the message in the chat.
pub open spec fn chat_send(run: Chatting, app: App) -> (Chatting, App, Act) {
    (Chatting { phase: ChatPhase::Sending, ..run }, app, ActionOf::Send(run.message))
}

/// Begins a chat in the session of the service, with the persona of the vault.
pub open spec fn chat_begin(run: Chatting, app: App, dir: Seq<char>) -> (Chatting, App, Act) {
    (
        Chatting { phase: ChatPhase::Reading, work: dir, ..run },
        app,
        ActionOf::ReadText(under(app.root, "mindrule.txt"@)),
    )
}

pub open spec fn chat_locked(run: Chatting, app: App) -> (Chatting, App, Act) {
    if app.chat {
        chat_send(run, app)
    } else {
        (Chatting { phase: ChatPhase::Sharing, ..run }, app, ActionOf::ShareSession)
    }
}

/// The session of the service is used, if there is one. Otherwise one is to be opened, and no
/// other request may do that meanwhile.
pub open spec fn chat_shared(run: Chatting, app: App) -> (Chatting, App, Act) {
    match app.session {
        Some(s) => chat_begin(run, app, s.work_dir),
        None => (
            Chatting { phase: ChatPhase::LockingSession, ..run },
            app,
            ActionOf::LockSession,
        ),
    }
}

pub open spec fn chat_alone(run: Chatting, app: App) -> (Chatting, App, Act) {
    match app.session {
        Some(s) => chat_begin(run, app, s.work_dir),
        None => (
            Chatting { phase: ChatPhase::Opening, ..run },
            app,
            ActionOf::OpenSession { discard: None },
        ),
    }
}

pub open spec fn chat_opened(run: Chatting, app: App, r: Result<(String, String), String>) -> (
    Chatting,
    App,
    Act,
) {
    match r {
        Ok((id, dir)) => chat_begin(run, with_session(app, id@, dir@), dir@),
        Err(_) => over(run, app, break_with("打开解密会话失败"@)),
    }
}

pub open spec fn chat_read(run: Chatting, app: App, rule: Option<String>) -> (Chatting, App, Act) {
    (
        Chatting { phase: ChatPhase::Creating, ..run },
        app,
        ActionOf::CreateChat(AgentModel { mindrule: maybe(rule), ..agent_for(app, run.work) }),
    )
}

pub open spec fn chat_created(run: Chatting, app: App, r: Result<(), String>) -> (
    Chatting,
    App,
    Act,
) {
    match r {
        Err(why) => over(run, app, break_with(why@)),
        Ok(()) => chat_send(run, App { chat: true, ..app }),
    }
}

pub open spec fn chat_answered(
    run: Chatting,
    app: App,
    r: Result<String, String>,
    sent_error: bool,
) -> (Chatting, App, Act) {
    over(
        run,
        app,
        match r {
            Ok(report) => ActionOf::Finish(
                Some(seq![text_member("type"@, "done"@), text_member("answer"@, report@)]),
            ),
            Err(why) => if sent_error {
                ActionOf::Finish(None)
            } else {
                break_with(why@)
            },
        },
    )
}

/// What is done with a message next.
pub open spec fn chat_next(run: Chatting, app: App, ev: Event) -> (Chatting, App, Act) {
    match (run.phase, ev) {
        (ChatPhase::Start, Event::Start) => chat_start(run, app),
        (ChatPhase::Configuring, Event::Llm { file, env }) => chat_configured(run, app, file, env),
        (ChatPhase::Streaming, Event::Ready) => (
            Chatting { phase: ChatPhase::Locking, ..run },
            app,
            ActionOf::LockChat,
        ),
        (ChatPhase::Locking, Event::Ready) => chat_locked(run, app),
        (ChatPhase::Sharing, Event::Ready) => chat_shared(run, app),
        (ChatPhase::LockingSession, Event::Ready) => chat_alone(run, app),
        (ChatPhase::Opening, Event::Opened(r)) => chat_opened(run, app, r),
        (ChatPhase::Reading, Event::Text(rule)) => chat_read(run, app, rule),
        (ChatPhase::Creating, Event::Done(r)) => chat_created(run, app, r),
        (ChatPhase::Sending, Event::Answered { result, sent_error }) => chat_answered(
            run,
            app,
            result,
            sent_error,
        ),
        _ => over(run, app, ActionOf::Misfit),
    }
}

impl ChatRun {
    pub fn new(message: String) -> (run: ChatRun)
        ensures
            run@ == new_message(message@),
    {
        ChatRun { phase: ChatPhase::Start, message, work: "".to_owned() }
    }

    fn end(&mut self, a: Action) -> (r: Action)
        ensures
            final(self)@ == (Chatting { phase: ChatPhase::Finished, ..old(self)@ }),
            r == a,
    {
        self.phase = ChatPhase::Finished;
        a
    }

    fn gate(&mut self, app: &AppState) -> (a: Action)
        ensures
            (final(self)@, app@, a@) == chat_gate(old(self)@, app@),
    {
        match app.check_gate() {
            Ok(()) => {},
            Err(reply) => {
                return self.end(answer(reply));
            },
        }
        if is_blank(self.message.as_str()) {
            return self.end(fail(400, "message 不能为空".to_owned()));
        }
        self.phase = ChatPhase::Streaming;
        ActionOf::StartStream
    }

    fn send(&mut self, app: &AppState) -> (a: Action)
        ensures
            (final(self)@, app@, a@) == chat_send(old(self)@, app@),
    {
        self.phase = ChatPhase::Sending;
        ActionOf::Send(self.message.clone())
    }

    fn begin(&mut self, app: &AppState, dir: String) -> (a: Action)
        ensures
            (final(self)@, app@, a@) == chat_begin(old(self)@, app@, dir@),
    {
        self.work = dir;
        self.phase = ChatPhase::Reading;
        ActionOf::ReadText(app.vault.mindrule_path())
    }

    fn locked(&mut self, app: &AppState) -> (a: Action)
        ensures
            (final(self)@, app@, a@) == chat_locked(old(self)@, app@),
    {
        if app.chat {
            return self.send(app);
        }
        self.phase = ChatPhase::Sharing;
        ActionOf::ShareSession
    }

    fn shared(&mut self, app: &AppState) -> (a: Action)
        ensures
            (final(self)@, app@, a@) == chat_shared(old(self)@, app@),
    {
        match app.session_dir() {
            Some(dir) => self.begin(app, dir),
            None => {
                self.phase = ChatPhase::LockingSession;
                ActionOf::LockSession
            },
        }
    }

    fn alone(&mut self, app: &AppState) -> (a: Action)
        ensures
            (final(self)@, app@, a@) == chat_alone(old(self)@, app@),
    {
        match app.session_dir() {
            Some(dir) => self.begin(app, dir),
            None => {
                self.phase = ChatPhase::Opening;
                ActionOf::OpenSession { discard: None }
            },
        }
    }

    /// What is to be done next.
    pub fn next(&mut self, app: &mut AppState, ev: Event) -> (a: Action)
        ensures
            (final(self)@, final(app)@, a@) == chat_next(old(self)@, old(app)@, ev),
    {
        match (self.phase, ev) {
            (ChatPhase::Start, Event::Start) => {
                if app.llm_ready() {
                    self.gate(app)
                } else {
                    self.phase = ChatPhase::Configuring;
                    ActionOf::LoadLlm(app.config_path.clone())
                }
            },
            (ChatPhase::Configuring, Event::Llm { file, env }) => {
                if app.refresh_llm(&file, &env) {
                    self.gate(app)
                } else {
                    self.end(fail(503, NO_LLM.to_owned()))
                }
            },
            (ChatPhase::Streaming, Event::Ready) => {
                self.phase = ChatPhase::Locking;
                ActionOf::LockChat
            },
            (ChatPhase::Locking, Event::Ready) => self.locked(app),
            (ChatPhase::Sharing, Event::Ready) => self.shared(app),
            (ChatPhase::LockingSession, Event::Ready) => self.alone(app),
            (ChatPhase::Opening, Event::Opened(r)) => {
                match r {
                    Ok((id, dir)) => {
                        let copy = dir.clone();
                        app.adopt_session(id, dir);
                        self.begin(app, copy)
                    },
                    Err(_) => self.end(fail_stream("打开解密会话失败".to_owned())),
                }
            },
            (ChatPhase::Reading, Event::Text(rule)) => {
                self.phase = ChatPhase::Creating;
                ActionOf::CreateChat(session_agent(app, self.work.as_str()).with_mindrule(rule))
            },
            (ChatPhase::Creating, Event::Done(r)) => {
                match r {
                    Err(why) => self.end(fail_stream(why)),
                    Ok(()) => {
                        app.chat = true;
                        self.send(app)
                    },
                }
            },
            (ChatPhase::Sending, Event::Answered { result, sent_error }) => {
                let a = match result {
                    Ok(report) => ActionOf::Finish(
                        Some(
                            two(
                                text_field("type", "done".to_owned()),
                                text_field("answer", report),
                            ),
                        ),
                    ),
                    Err(why) => if sent_error {
                        ActionOf::Finish(None)
                    } else {
                        fail_stream(why)
                    },
                };
                self.end(a)
            },
            _ => self.end(ActionOf::Misfit),
        }
    }
}

/// How far a request to begin the chat anew has come.
#[derive(Debug, Clone, Copy, PartialEq, Eq, Structural)]
pub enum ResetPhase {
    Start,
    Locking,
    Finished,
}

/// A request to begin the chat anew.
pub struct ResetRun {
    pub phase: ResetPhase,
}

/// What a request to begin the chat anew does next: it needs an open gateway, waits until no other
/// request uses the chat, and leaves none.
pub open spec fn reset_next(phase: ResetPhase, app: App, ev: Event) -> (ResetPhase, App, Act) {
    match (phase, ev) {
        (ResetPhase::Start, Event::Start) => if app.gateway.unlocked {
            (ResetPhase::Locking, app, ActionOf::LockChat)
        } else {
            (ResetPhase::Finished, app, answer_with(locked_out()))
        },
        (ResetPhase::Locking, Event::Ready) => (
            ResetPhase::Finished,
            App { chat: false, ..app },
            answer_with(Answer { status: 200, body: seq![flag_member("reset"@, true)] }),
        ),
        _ => (ResetPhase::Finished, app, ActionOf::Misfit),
    }
}

impl ResetRun {
    pub fn new() -> (run: ResetRun)
        ensures
            run.phase == ResetPhase::Start,
    {
        ResetRun { phase: ResetPhase::Start }
    }

    /// What is to be done next.
    pub fn next(&mut self, app: &mut AppState, ev: Event) -> (a: Action)
        ensures
            (final(self).phase, final(app)@, a@) == reset_next(old(self).phase, old(app)@, ev),
    {
        match (self.phase, ev) {
            (ResetPhase::Start, Event::Start) => {
                match app.check_gate() {
                    Ok(()) => {
                        self.phase = ResetPhase::Locking;
                        ActionOf::LockChat
                    },
                    Err(reply) => {
                        self.phase = ResetPhase::Finished;
                        answer(reply)
                    },
                }
            },
            (ResetPhase::Locking, Event::Ready) => {
                app.chat = false;
                self.phase = ResetPhase::Finished;
                answer(Reply { status: 200, body: one(flag_field("reset", true)) })
            },
            _ => {
                self.phase = ResetPhase::Finished;
                ActionOf::Misfit
            },
        }
    }
}

// ---------------------------------------------------------------------------
// Laws
// ---------------------------------------------------------------------------

/// A chat is begun only where there is none, in the directory of the session and with the current
/// settings; as long as there is one, messages go to it.
pub proof fn law_chat_goes_on(run: Chatting, app: App)
    requires
        run.phase == ChatPhase::Locking,
    ensures
        app.chat ==> chat_next(run, app, Event::Ready).2 == Act::Send(run.message),
        !app.chat ==> !(chat_next(run, app, Event::Ready).2 is Send),
{
}

/// A chat is begun anew only with the gateway open, and there is none after it.
pub proof fn law_reset_leaves_no_chat(app: App)
    ensures
        !app.gateway.unlocked ==> reset_next(ResetPhase::Start, app, Event::Start).2
            == answer_with(locked_out()),
        app.gateway.unlocked ==> reset_next(ResetPhase::Start, app, Event::Start).2
            == Act::LockChat,
        !reset_next(ResetPhase::Locking, app, Event::Ready).1.chat,
{
}

/// A stream that has begun ends as a stream: no answer is given in its place.
pub proof fn law_chat_streams_end_as_streams(run: Chatting, app: App, ev: Event)
    requires
        run.phase != ChatPhase::Start,
        run.phase != ChatPhase::Configuring,
    ensures
        !(chat_next(run, app, ev).2 is Respond),
{
}

/// Without a model a message is answered 503, whatever the gateway; with one, a closed gateway turns it
/// away. In both cases no stream begins.
pub proof fn law_chat_needs_a_model_and_an_open_gate(
    message: Seq<char>,
    app: App,
    file: Option<String>,
    env: LlmEnv,
)
    ensures
        llm_ready(app) && !app.gateway.unlocked ==> chat_next(
            new_message(message),
            app,
            Event::Start,
        ).2 == answer_with(locked_out()),
        !llm_ready(app) ==> chat_next(new_message(message), app, Event::Start).2 == Act::LoadLlm(
            app.config_path,
        ),
        loaded_settings(file, env).api_key.len() == 0 ==> chat_configured(
            new_message(message),
            app,
            file,
            env,
        ).2 == fail_with(503, NO_LLM@),
        loaded_settings(file, env).api_key.len() > 0 && !app.gateway.unlocked ==> chat_configured(
            new_message(message),
            app,
            file,
            env,
        ).2 == answer_with(locked_out()),
{
}

/// A message after some steps, each with the state of the service at that moment, which other
/// requests may have changed, and with what the last action came to.
pub open spec fn chat_after(run: Chatting, steps: Steps) -> Chatting
    decreases steps.len(),
{
    if steps.len() == 0 {
        run
    } else {
        let last = steps.last();
        chat_next(chat_after(run, steps.drop_last()), last.0, last.1).0
    }
}

/// What the last of some steps asks for.
pub open spec fn chat_last(run: Chatting, steps: Steps) -> Act
    recommends
        steps.len() > 0,
{
    let last = steps.last();
    chat_next(chat_after(run, steps.drop_last()), last.0, last.1).2
}

proof fn lemma_knows(message: Seq<char>, steps: Steps)
    ensures
        ({
            let run = chat_after(new_message(message), steps);
            &&& run.message == message
            &&& run.phase == ChatPhase::Start ==> steps.len() == 0
            &&& run.phase == ChatPhase::Reading || run.phase == ChatPhase::Creating ==> Some(
                run.work,
            ) == session_found(steps)
        }),
    decreases steps.len(),
{
    if steps.len() > 0 {
        lemma_knows(message, steps.drop_last());
    }
}

/// What is done with a message, at every step of every run: a chat is begun in the directory of the
/// session that was found or opened, with the current settings and the persona that the vault has;
/// the message, as it is, is said in the chat; and what is answered there is passed on.
pub proof fn law_chat_is_held_in_the_session(message: Seq<char>, steps: Steps)
    requires
        steps.len() > 0,
    ensures
        match chat_last(new_message(message), steps) {
            ActionOf::CreateChat(agent) => Some(agent.work_dir) == session_found(steps)
                && agent.skills_root == steps.last().0.skills_root && agent.llm
                == steps.last().0.llm && (steps.last().1 matches Event::Text(rule)
                && agent.mindrule == maybe(rule)),
            ActionOf::ReadText(path) => path == under(steps.last().0.root, "mindrule.txt"@),
            ActionOf::Send(text) => text == message,
            ActionOf::OpenSession { discard } => discard is None && steps.last().0.session is None,
            ActionOf::Finish(Some(body)) => body.len() > 0 && body[0] != (Member {
                key: "type"@,
                value: ValueOf::Text("error"@),
            }) ==> (steps.last().1 matches Event::Answered { result: Ok(text), sent_error } && body
                == seq![
                Member { key: "type"@, value: ValueOf::Text("done"@) },
                Member { key: "answer"@, value: ValueOf::Text(text@) },
            ]),
            ActionOf::Respond { status, body } => status != 200,
            _ => true,
        },
{
    lemma_knows(message, steps);
    lemma_knows(message, steps.drop_last());
}

/// How the stream of a message ends when something goes wrong on its way, at the step where it does.
/// An error that has been passed on as news is not told again.
pub proof fn law_chat_says_what_went_wrong(
    run: Chatting,
    app: App,
    why: String,
    sent_error: bool,
)
    ensures
        run.phase == ChatPhase::Opening ==> breaks(
            chat_next(run, app, Event::Opened(Err(why))).2,
            "打开解密会话失败"@,
        ),
        run.phase == ChatPhase::Creating ==> breaks(
            chat_next(run, app, Event::Done(Err(why))).2,
            why@,
        ),
        run.phase == ChatPhase::Sending ==> ({
            let a = chat_next(run, app, Event::Answered { result: Err(why), sent_error }).2;
            &&& sent_error ==> a == Act::Finish(None)
            &&& !sent_error ==> breaks(a, why@)
        }),
{
}

/// A message goes on from step to step as long as nothing goes wrong: a chat that there is goes on,
/// and one is begun only where there is none.
pub proof fn law_messages_go_on(run: Chatting, app: App, ev: Event)
    ensures
        ({
            let (now, after, a) = chat_next(run, app, ev);
            let ready = app.llm.api_key.len() > 0;
            let says = trim(run.message).len() > 0;
            &&& run.phase == ChatPhase::Start && ev is Start ==> after == app
            &&& run.phase == ChatPhase::Start && ev is Start && !ready ==> a == Act::LoadLlm(
                app.config_path,
            ) && now.phase == ChatPhase::Configuring
            &&& run.phase == ChatPhase::Start && ev is Start && ready && !app.gateway.unlocked
                ==> turns_away(a)
            &&& run.phase == ChatPhase::Start && ev is Start && ready && app.gateway.unlocked
                && !says ==> refuses(a, 400, "message 不能为空"@)
            &&& run.phase == ChatPhase::Start && ev is Start && ready && app.gateway.unlocked
                && says ==> a == Act::StartStream && now.phase == ChatPhase::Streaming
            &&& run.phase == ChatPhase::Configuring ==> (ev matches Event::Llm { file, env } ==> ({
                let llm = loaded_settings(file, env);
                &&& llm.api_key.len() == 0 ==> after == app && refuses(
                    a,
                    503,
                    "未配置 LLM：请在设置页填写模型配置并保存，或设置环境变量 MW_LLM_API_KEY（可选 MW_LLM_PROVIDER / MW_LLM_BASE_URL / MW_LLM_MODEL）后重启 mindwiki serve"@,
                )
                &&& llm.api_key.len() > 0 ==> after == (App { llm, ..app })
                &&& llm.api_key.len() > 0 && !app.gateway.unlocked ==> turns_away(a)
                &&& llm.api_key.len() > 0 && app.gateway.unlocked && !says ==> refuses(
                    a,
                    400,
                    "message 不能为空"@,
                )
                &&& llm.api_key.len() > 0 && app.gateway.unlocked && says ==> a == Act::StartStream
                    && now.phase == ChatPhase::Streaming
            }))
            &&& run.phase == ChatPhase::Streaming && ev is Ready ==> a == Act::LockChat && now.phase
                == ChatPhase::Locking
            &&& run.phase == ChatPhase::Locking && ev is Ready ==> (if app.chat {
                a is Send && now.phase == ChatPhase::Sending
            } else {
                a == Act::ShareSession && now.phase == ChatPhase::Sharing
            })
            &&& run.phase == ChatPhase::Sharing && ev is Ready ==> (if app.session is Some {
                a is ReadText && now.phase == ChatPhase::Reading
            } else {
                a == Act::LockSession && now.phase == ChatPhase::LockingSession
            })
            &&& run.phase == ChatPhase::LockingSession && ev is Ready ==> (if app.session is Some {
                a is ReadText && now.phase == ChatPhase::Reading
            } else {
                a is OpenSession && now.phase == ChatPhase::Opening
            })
            &&& run.phase == ChatPhase::Opening ==> (ev matches Event::Opened(Ok((id, dir))) ==> a
                is ReadText && now.phase == ChatPhase::Reading && (after.session matches Some(s)
                && s.id == id@ && s.work_dir == dir@ && !s.terminate) && after.gateway.sessions
                == app.gateway.sessions.insert(id@, dir@))
            &&& run.phase == ChatPhase::Reading && ev is Text ==> a is CreateChat && now.phase
                == ChatPhase::Creating
            &&& run.phase == ChatPhase::Creating && (ev matches Event::Done(r) && r is Ok) ==> a
                is Send && now.phase == ChatPhase::Sending && after.chat
            &&& run.phase == ChatPhase::Sending ==> (ev matches Event::Answered {
                result: Ok(text),
                sent_error,
            } ==> a == Act::Finish(
                Some(
                    seq![
                        Member { key: "type"@, value: ValueOf::Text("done"@) },
                        Member { key: "answer"@, value: ValueOf::Text(text@) },
                    ],
                ),
            ))
        }),
{
}

/// A message changes nothing in the state but settings that it had to look for, a session that it had
/// to open, and that there is a chat once one was begun.
pub proof fn law_messages_leave_the_rest(run: Chatting, app: App, ev: Event)
    ensures
        ({
            let now = chat_next(run, app, ev).1;
            &&& now.root == app.root
            &&& now.admin_token == app.admin_token
            &&& now.skills_root == app.skills_root
            &&& now.config_path == app.config_path
            &&& now.gateway.salt == app.gateway.salt
            &&& now.gateway.token == app.gateway.token
            &&& now.gateway.closed_at == app.gateway.closed_at
            &&& now.llm != app.llm ==> ev is Llm && run.phase == ChatPhase::Configuring
            &&& now.chat != app.chat ==> now.chat && run.phase == ChatPhase::Creating
            &&& now.session != app.session ==> ev is Opened && run.phase == ChatPhase::Opening
        }),
{
}

/// A request to begin the chat anew is answered so, and changes nothing but the chat.
pub proof fn law_reset_says_so(app: App)
    ensures
        ({
            let (start, same, first) = reset_next(ResetPhase::Start, app, Event::Start);
            let (_, now, a) = reset_next(ResetPhase::Locking, app, Event::Ready);
            &&& same == app
            &&& !app.gateway.unlocked ==> turns_away(first)
            &&& app.gateway.unlocked ==> first == Act::LockChat && start == ResetPhase::Locking
            &&& reports(a, seq![Member { key: "reset"@, value: ValueOf::Flag(true) }])
            &&& now == (App { chat: false, ..app })
        }),
{
}

} // verus!
