//! Answering a question from the wiki by an agent. What the agent changes is sealed.

use crate::entry::session_agent;
#[allow(unused_imports)]
use crate::entry::agent_for;
use crate::flow::{answer, fail, Action, ActionOf, Event};
#[allow(unused_imports)]
use crate::flow::{answer_with, fail_with, went_well, Act};
#[allow(unused_imports)]
use crate::history::{
    refuses,
    reports,
    session_found,
    told_answer,
    told_marks,
    turns_away,
    Steps,
};
use crate::llm::LlmEnv;
#[allow(unused_imports)]
use crate::llm::loaded_settings;
use crate::prompts::query_prompt;
#[allow(unused_imports)]
use crate::prompts::query_text;
use crate::reply::{flag_field, text_field, texts_field, three, Reply};
#[allow(unused_imports)]
use crate::reply::{flag_member, text_member, texts_member, Answer, Member, ValueOf};
use crate::snapshot::{diff_snapshots, snapshot, FileMark, Snapshot};
#[allow(unused_imports)]
use crate::snapshot::{changed, mark_models, snapshot_of, Mark};
use crate::state::{AppState, NO_LLM};
#[allow(unused_imports)]
use crate::state::{llm_ready, locked_out, with_fresh_llm, with_session, App};
use crate::text::{cat, copy_texts, is_blank, texts};
#[allow(unused_imports)]
use crate::text::trim;
use vstd::prelude::*;

verus! {

/// How far a query has come.
#[derive(Debug, Clone, Copy, PartialEq, Eq, Structural)]
pub enum QueryPhase {
    Start,
    Configuring,
    Locking,
    Sharing,
    LockingSession,
    Opening,
    MarkingBefore,
    Asking,
    MarkingAfter,
    Sealing,
    Finished,
}

/// A query that is being worked off.
pub struct QueryRun {
    pub phase: QueryPhase,
    pub question: String,
    /// The directory of the session.
    pub work: String,
    /// The files before the agent came.
    pub before: Snapshot,
    /// What the agent answered, and the files that it changed.
    pub report: String,
    pub files: Vec<String>,
}

/// The mathematical content of a query.
pub struct Query {
    pub phase: QueryPhase,
    pub question: Seq<char>,
    pub work: Seq<char>,
    pub before: Seq<Mark>,
    pub report: Seq<char>,
    pub files: Seq<Seq<char>>,
}

impl View for QueryRun {
    type V = Query;

    open spec fn view(&self) -> Query {
        Query {
            phase: self.phase,
            question: self.question@,
            work: self.work@,
            before: self.before@,
            report: self.report@,
            files: texts(self.files@),
        }
    }
}

/// A query that has not begun.
pub open spec fn new_query(question: Seq<char>) -> Query {
    Query {
        phase: QueryPhase::Start,
        question,
        work: ""@,
        before: snapshot_of(seq![]),
        report: ""@,
        files: seq![],
    }
}

/// A query that goes no further.
pub open spec fn over(run: Query, app: App, a: Act) -> (Query, App, Act) {
    (Query { phase: QueryPhase::Finished, ..run }, app, a)
}

pub open spec fn query_gate(run: Query, app: App) -> (Query, App, Act) {
    if !app.gateway.unlocked {
        over(run, app, answer_with(locked_out()))
    } else if trim(run.question).len() == 0 {
        over(run, app, fail_with(400, "question 不能为空"@))
    } else {
        (Query { phase: QueryPhase::Locking, ..run }, app, ActionOf::LockVault)
    }
}

pub open spec fn query_start(run: Query, app: App) -> (Query, App, Act) {
    if llm_ready(app) {
        query_gate(run, app)
    } else {
        (Query { phase: QueryPhase::Configuring, ..run }, app, ActionOf::LoadLlm(app.config_path))
    }
}

pub open spec fn query_configured(run: Query, app: App, file: Option<String>, env: LlmEnv) -> (
    Query,
    App,
    Act,
) {
    if loaded_settings(file, env).api_key.len() > 0 {
        query_gate(run, with_fresh_llm(app, file, env))
    } else {
        over(run, app, fail_with(503, NO_LLM@))
    }
}

/// Works in the session of the service.
pub open spec fn query_begin(run: Query, app: App, dir: Seq<char>) -> (Query, App, Act) {
    (Query { phase: QueryPhase::MarkingBefore, work: dir, ..run }, app, ActionOf::Mark(dir))
}

pub open spec fn query_locked(run: Query, app: App) -> (Query, App, Act) {
    match app.session {
        Some(s) => query_begin(run, app, s.work_dir),
        None => (
            Query { phase: QueryPhase::Opening, ..run },
            app,
            ActionOf::OpenSession { discard: None },
        ),
    }
}

/// The session of the service is used, if there is one. Otherwise one is to be opened, and no
/// other request may do that meanwhile.
pub open spec fn query_shared(run: Query, app: App) -> (Query, App, Act) {
    match app.session {
        Some(s) => query_begin(run, app, s.work_dir),
        None => (Query { phase: QueryPhase::LockingSession, ..run }, app, ActionOf::LockSession),
    }
}

pub open spec fn query_opened(run: Query, app: App, r: Result<(String, String), String>) -> (
    Query,
    App,
    Act,
) {
    match r {
        Ok((id, dir)) => query_begin(run, with_session(app, id@, dir@), dir@),
        Err(why) => over(run, app, fail_with(423, "打开解密会话失败："@ + why@)),
    }
}

pub open spec fn query_marked_before(run: Query, app: App, marks: Seq<FileMark>) -> (
    Query,
    App,
    Act,
) {
    (
        Query { phase: QueryPhase::Asking, before: snapshot_of(mark_models(marks)), ..run },
        app,
        ActionOf::Ask {
            agent: agent_for(app, run.work),
            prompt: query_text(run.question),
            stream: false,
        },
    )
}

pub open spec fn query_answered(run: Query, app: App, r: Result<String, String>) -> (
    Query,
    App,
    Act,
) {
    match r {
        Ok(report) => (
            Query { phase: QueryPhase::MarkingAfter, report: report@, ..run },
            app,
            ActionOf::Mark(run.work),
        ),
        Err(why) => over(run, app, fail_with(500, "Agent 查询失败："@ + why@)),
    }
}

/// What a query that succeeded is answered.
pub open spec fn query_report(run: Query, sealed: bool) -> Answer {
    Answer {
        status: 200,
        body: seq![
            text_member("answer"@, run.report),
            flag_member("sealed"@, sealed),
            texts_member("files"@, run.files),
        ],
    }
}

pub open spec fn query_marked_after(run: Query, app: App, marks: Seq<FileMark>) -> (
    Query,
    App,
    Act,
) {
    let now = Query { files: changed(run.before, snapshot_of(mark_models(marks))), ..run };
    if now.files.len() > 0 {
        (Query { phase: QueryPhase::Sealing, ..now }, app, ActionOf::Seal(run.work))
    } else {
        over(now, app, answer_with(query_report(now, false)))
    }
}

pub open spec fn query_sealed(run: Query, app: App, r: Result<(), String>) -> (Query, App, Act) {
    match r {
        Err(why) => over(run, app, fail_with(500, "封印失败："@ + why@)),
        Ok(()) => over(run, app, answer_with(query_report(run, true))),
    }
}

/// What a query does next.
pub open spec fn query_next(run: Query, app: App, ev: Event) -> (Query, App, Act) {
    match (run.phase, ev) {
        (QueryPhase::Start, Event::Start) => query_start(run, app),
        (QueryPhase::Configuring, Event::Llm { file, env }) => query_configured(
            run,
            app,
            file,
            env,
        ),
        (QueryPhase::Locking, Event::Ready) => (
            Query { phase: QueryPhase::Sharing, ..run },
            app,
            ActionOf::ShareSession,
        ),
        (QueryPhase::Sharing, Event::Ready) => query_shared(run, app),
        (QueryPhase::LockingSession, Event::Ready) => query_locked(run, app),
        (QueryPhase::Opening, Event::Opened(r)) => query_opened(run, app, r),
        (QueryPhase::MarkingBefore, Event::Marks(marks)) => query_marked_before(run, app, marks@),
        (QueryPhase::Asking, Event::Answered { result, sent_error }) => query_answered(
            run,
            app,
            result,
        ),
        (QueryPhase::MarkingAfter, Event::Marks(marks)) => query_marked_after(run, app, marks@),
        (QueryPhase::Sealing, Event::Done(r)) => query_sealed(run, app, r),
        _ => over(run, app, ActionOf::Misfit),
    }
}

impl QueryRun {
    pub fn new(question: String) -> (run: QueryRun)
        ensures
            run@ == new_query(question@),
    {
        let none: Vec<FileMark> = Vec::new();
        assert(mark_models(none@) =~= seq![]);
        let run = QueryRun {
            phase: QueryPhase::Start,
            question,
            work: "".to_owned(),
            before: snapshot(none),
            report: "".to_owned(),
            files: Vec::new(),
        };
        assert(run@.files =~= seq![]);
        run
    }

    fn end(&mut self, a: Action) -> (r: Action)
        ensures
            final(self)@ == (Query { phase: QueryPhase::Finished, ..old(self)@ }),
            r == a,
    {
        self.phase = QueryPhase::Finished;
        a
    }

    fn gate(&mut self, app: &AppState) -> (a: Action)
        ensures
            (final(self)@, app@, a@) == query_gate(old(self)@, app@),
    {
        match app.check_gate() {
            Ok(()) => {},
            Err(reply) => {
                return self.end(answer(reply));
            },
        }
        if is_blank(self.question.as_str()) {
            return self.end(fail(400, "question 不能为空".to_owned()));
        }
        self.phase = QueryPhase::Locking;
        ActionOf::LockVault
    }

    fn begin(&mut self, app: &AppState, dir: String) -> (a: Action)
        ensures
            (final(self)@, app@, a@) == query_begin(old(self)@, app@, dir@),
    {
        self.work = dir.clone();
        self.phase = QueryPhase::MarkingBefore;
        ActionOf::Mark(dir)
    }

    fn report(&self, sealed: bool) -> (r: Reply)
        ensures
            r@ == query_report(self@, sealed),
    {
        Reply {
            status: 200,
            body: three(
                text_field("answer", self.report.clone()),
                flag_field("sealed", sealed),
                texts_field("files", copy_texts(&self.files)),
            ),
        }
    }

    fn marked_after(&mut self, app: &AppState, marks: Vec<FileMark>) -> (a: Action)
        ensures
            (final(self)@, app@, a@) == query_marked_after(old(self)@, app@, marks@),
    {
        let after = snapshot(marks);
        self.files = diff_snapshots(&self.before, &after);
        if self.files.len() > 0 {
            self.phase = QueryPhase::Sealing;
            ActionOf::Seal(self.work.clone())
        } else {
            let a = answer(self.report(false));
            self.end(a)
        }
    }

    /// What is to be done next.
    pub fn next(&mut self, app: &mut AppState, ev: Event) -> (a: Action)
        ensures
            (final(self)@, final(app)@, a@) == query_next(old(self)@, old(app)@, ev),
    {
        match (self.phase, ev) {
            (QueryPhase::Start, Event::Start) => {
                if app.llm_ready() {
                    self.gate(app)
                } else {
                    self.phase = QueryPhase::Configuring;
                    ActionOf::LoadLlm(app.config_path.clone())
                }
            },
            (QueryPhase::Configuring, Event::Llm { file, env }) => {
                if app.refresh_llm(&file, &env) {
                    self.gate(app)
                } else {
                    self.end(fail(503, NO_LLM.to_owned()))
                }
            },
            (QueryPhase::Locking, Event::Ready) => {
                self.phase = QueryPhase::Sharing;
                ActionOf::ShareSession
            },
            (QueryPhase::Sharing, Event::Ready) => {
                match app.session_dir() {
                    Some(dir) => self.begin(app, dir),
                    None => {
                        self.phase = QueryPhase::LockingSession;
                        ActionOf::LockSession
                    },
                }
            },
            (QueryPhase::LockingSession, Event::Ready) => {
                match app.session_dir() {
                    Some(dir) => self.begin(app, dir),
                    None => {
                        self.phase = QueryPhase::Opening;
                        ActionOf::OpenSession { discard: None }
                    },
                }
            },
            (QueryPhase::Opening, Event::Opened(r)) => {
                match r {
                    Ok((id, dir)) => {
                        let copy = dir.clone();
                        app.adopt_session(id, dir);
                        self.begin(app, copy)
                    },
                    Err(why) => self.end(fail(423, cat("打开解密会话失败：", why.as_str()))),
                }
            },
            (QueryPhase::MarkingBefore, Event::Marks(marks)) => {
                self.before = snapshot(marks);
                self.phase = QueryPhase::Asking;
                ActionOf::Ask {
                    agent: session_agent(app, self.work.as_str()),
                    prompt: query_prompt(self.question.as_str()),
                    stream: false,
                }
            },
            (QueryPhase::Asking, Event::Answered { result, sent_error: _ }) => {
                match result {
                    Ok(report) => {
                        self.report = report;
                        self.phase = QueryPhase::MarkingAfter;
                        ActionOf::Mark(self.work.clone())
                    },
                    Err(why) => self.end(fail(500, cat("Agent 查询失败：", why.as_str()))),
                }
            },
            (QueryPhase::MarkingAfter, Event::Marks(marks)) => self.marked_after(app, marks),
            (QueryPhase::Sealing, Event::Done(r)) => {
                let a = match r {
                    Err(why) => fail(500, cat("封印失败：", why.as_str())),
                    Ok(()) => answer(self.report(true)),
                };
                self.end(a)
            },
            _ => self.end(ActionOf::Misfit),
        }
    }
}

// ---------------------------------------------------------------------------
// Laws
// ---------------------------------------------------------------------------

/// A query is read-only unless the agent changed something: it is sealed exactly if files changed,
/// and says so in the answer.
pub proof fn law_query_seals_only_changes(run: Query, app: App, marks: Vec<FileMark>, ev: Event)
    requires
        run.phase == QueryPhase::MarkingAfter,
    ensures
        ({
            let files = changed(run.before, snapshot_of(mark_models(marks@)));
            let (now, _, a) = query_next(run, app, Event::Marks(marks));
            &&& now.files == files
            &&& a == Act::Seal(run.work) <==> files.len() > 0
            &&& files.len() == 0 ==> a == answer_with(query_report(now, false))
            &&& files.len() > 0 && went_well(ev) ==> query_next(now, app, ev).2 == answer_with(
                query_report(now, true),
            )
        }),
{
}

/// Without a model a query is answered 503, whatever the gateway; with one, a closed gateway turns it
/// away. In both cases nothing is done.
pub proof fn law_query_needs_a_model_and_an_open_gate(
    question: Seq<char>,
    app: App,
    file: Option<String>,
    env: LlmEnv,
)
    ensures
        llm_ready(app) && !app.gateway.unlocked ==> query_next(
            new_query(question),
            app,
            Event::Start,
        ).2 == answer_with(locked_out()),
        !llm_ready(app) ==> query_next(new_query(question), app, Event::Start).2 == Act::LoadLlm(
            app.config_path,
        ),
        loaded_settings(file, env).api_key.len() == 0 ==> query_configured(
            new_query(question),
            app,
            file,
            env,
        ).2 == fail_with(503, NO_LLM@),
        loaded_settings(file, env).api_key.len() > 0 && !app.gateway.unlocked ==> query_configured(
            new_query(question),
            app,
            file,
            env,
        ).2 == answer_with(locked_out()),
{
}

/// A query after some steps, each with the state of the service at that moment, which other requests
/// may have changed, and with what the last action came to.
pub open spec fn query_after(run: Query, steps: Steps) -> Query
    decreases steps.len(),
{
    if steps.len() == 0 {
        run
    } else {
        let last = steps.last();
        query_next(query_after(run, steps.drop_last()), last.0, last.1).0
    }
}

/// What the last of some steps asks for.
pub open spec fn query_last(run: Query, steps: Steps) -> Act
    recommends
        steps.len() > 0,
{
    let last = steps.last();
    query_next(query_after(run, steps.drop_last()), last.0, last.1).2
}

/// The phases of a query in their order.
spec fn place(p: QueryPhase) -> int {
    match p {
        QueryPhase::Start => 0,
        QueryPhase::Configuring => 1,
        QueryPhase::Locking => 2,
        QueryPhase::Sharing => 3,
        QueryPhase::LockingSession => 4,
        QueryPhase::Opening => 5,
        QueryPhase::MarkingBefore => 6,
        QueryPhase::Asking => 7,
        QueryPhase::MarkingAfter => 8,
        QueryPhase::Sealing => 9,
        QueryPhase::Finished => 10,
    }
}

/// What a query holds is what it was asked and what it was told.
spec fn knows(question: Seq<char>, steps: Steps) -> bool {
    let run = query_after(new_query(question), steps);
    let at = place(run.phase);
    &&& run.question == question
    &&& at == 0 ==> steps.len() == 0
    &&& 6 <= at <= 9 ==> Some(run.work) == session_found(steps)
    &&& 0 <= at <= 6 ==> told_marks(steps) == Seq::<Seq<Mark>>::empty()
    &&& 7 <= at <= 8 ==> told_marks(steps).len() == 1 && run.before == snapshot_of(
        told_marks(steps)[0],
    )
    &&& 8 <= at <= 9 ==> Some(run.report) == told_answer(steps)
    &&& at == 9 ==> told_marks(steps).len() == 2 && run.files == changed(
        snapshot_of(told_marks(steps)[0]),
        snapshot_of(told_marks(steps)[1]),
    ) && run.files.len() > 0
}

#[verifier::spinoff_prover]
#[verifier::rlimit(60)]
proof fn lemma_knows(question: Seq<char>, steps: Steps)
    ensures
        knows(question, steps),
    decreases steps.len(),
{
    if steps.len() > 0 {
        lemma_knows(question, steps.drop_last());
    }
}

/// What a query does, at every step of every run: the agent is put to work in the session that was
/// found or opened, with the current settings, and asked the question; and the same session is
/// marked, and sealed if something changed in it.
pub proof fn law_query_asks_the_question(question: Seq<char>, steps: Steps)
    requires
        steps.len() > 0,
    ensures
        match query_last(new_query(question), steps) {
            ActionOf::Ask { agent, prompt, stream } => Some(agent.work_dir) == session_found(steps)
                && agent.skills_root == steps.last().0.skills_root && agent.llm
                == steps.last().0.llm && agent.mindrule is None && prompt == query_text(question)
                && !stream,
            ActionOf::Mark(dir) => Some(dir) == session_found(steps),
            ActionOf::Seal(dir) => Some(dir) == session_found(steps) && told_marks(steps).len() == 2
                && changed(
                snapshot_of(told_marks(steps)[0]),
                snapshot_of(told_marks(steps)[1]),
            ).len() > 0,
            ActionOf::OpenSession { discard } => discard is None && steps.last().0.session is None,
            _ => true,
        },
{
    lemma_knows(question, steps);
    lemma_knows(question, steps.drop_last());
}

/// What a query that succeeded is answered, in every run: what the agent answered, the files that
/// changed while it was there, and that they were sealed, if there are any.
pub proof fn law_query_reports_what_it_was_told(question: Seq<char>, steps: Steps)
    requires
        steps.len() > 0,
        query_last(new_query(question), steps) matches ActionOf::Respond { status, body } && status
            == 200,
    ensures
        told_answer(steps) is Some,
        told_marks(steps).len() == 2,
        ({
            let files = changed(
                snapshot_of(told_marks(steps)[0]),
                snapshot_of(told_marks(steps)[1]),
            );
            &&& reports(
                query_last(new_query(question), steps),
                seq![
                    Member { key: "answer"@, value: ValueOf::Text(told_answer(steps)->0) },
                    Member { key: "sealed"@, value: ValueOf::Flag(files.len() > 0) },
                    Member { key: "files"@, value: ValueOf::Texts(files) },
                ],
            )
            &&& files.len() > 0 ==> went_well(steps.last().1) && query_last(
                new_query(question),
                steps.drop_last(),
            ) is Seal
        }),
{
    let less = steps.drop_last();
    lemma_knows(question, less);
    if less.len() > 0 {
        lemma_knows(question, less.drop_last());
    }
}

/// What a query is answered when something goes wrong on its way, at the step where it does.
pub proof fn law_query_says_what_went_wrong(
    run: Query,
    app: App,
    why: String,
    sent_error: bool,
)
    ensures
        run.phase == QueryPhase::Opening ==> refuses(
            query_next(run, app, Event::Opened(Err(why))).2,
            423,
            "打开解密会话失败："@ + why@,
        ),
        run.phase == QueryPhase::Asking ==> refuses(
            query_next(run, app, Event::Answered { result: Err(why), sent_error }).2,
            500,
            "Agent 查询失败："@ + why@,
        ),
        run.phase == QueryPhase::Sealing ==> refuses(
            query_next(run, app, Event::Done(Err(why))).2,
            500,
            "封印失败："@ + why@,
        ),
{
}

/// A query goes on from step to step as long as nothing goes wrong: it looks for settings only if it
/// has none, opens a session only if there is none, and seals only what changed.
pub proof fn law_query_goes_on(run: Query, app: App, ev: Event)
    ensures
        ({
            let (now, after, a) = query_next(run, app, ev);
            let ready = app.llm.api_key.len() > 0;
            let asks = trim(run.question).len() > 0;
            &&& run.phase == QueryPhase::Start && ev is Start ==> after == app
            &&& run.phase == QueryPhase::Start && ev is Start && !ready ==> a == Act::LoadLlm(
                app.config_path,
            ) && now.phase == QueryPhase::Configuring
            &&& run.phase == QueryPhase::Start && ev is Start && ready && !app.gateway.unlocked
                ==> turns_away(a)
            &&& run.phase == QueryPhase::Start && ev is Start && ready && app.gateway.unlocked
                && !asks ==> refuses(a, 400, "question 不能为空"@)
            &&& run.phase == QueryPhase::Start && ev is Start && ready && app.gateway.unlocked
                && asks ==> a == Act::LockVault && now.phase == QueryPhase::Locking
            &&& run.phase == QueryPhase::Configuring ==> (ev matches Event::Llm { file, env } ==> ({
                let llm = loaded_settings(file, env);
                &&& llm.api_key.len() == 0 ==> after == app && refuses(
                    a,
                    503,
                    "未配置 LLM：请在设置页填写模型配置并保存，或设置环境变量 MW_LLM_API_KEY（可选 MW_LLM_PROVIDER / MW_LLM_BASE_URL / MW_LLM_MODEL）后重启 mindwiki serve"@,
                )
                &&& llm.api_key.len() > 0 ==> after == (App { llm, ..app })
                &&& llm.api_key.len() > 0 && !app.gateway.unlocked ==> turns_away(a)
                &&& llm.api_key.len() > 0 && app.gateway.unlocked && !asks ==> refuses(
                    a,
                    400,
                    "question 不能为空"@,
                )
                &&& llm.api_key.len() > 0 && app.gateway.unlocked && asks ==> a == Act::LockVault
                    && now.phase == QueryPhase::Locking
            }))
            &&& run.phase == QueryPhase::Locking && ev is Ready ==> a == Act::ShareSession
                && now.phase == QueryPhase::Sharing
            &&& run.phase == QueryPhase::Sharing && ev is Ready ==> (if app.session is Some {
                a is Mark && now.phase == QueryPhase::MarkingBefore
            } else {
                a == Act::LockSession && now.phase == QueryPhase::LockingSession
            })
            &&& run.phase == QueryPhase::LockingSession && ev is Ready ==> (if app.session is Some {
                a is Mark && now.phase == QueryPhase::MarkingBefore
            } else {
                a is OpenSession && now.phase == QueryPhase::Opening
            })
            &&& run.phase == QueryPhase::Opening ==> (ev matches Event::Opened(Ok((id, dir)))
                ==> a is Mark && now.phase == QueryPhase::MarkingBefore && (
            after.session matches Some(s) && s.id == id@ && s.work_dir == dir@ && !s.terminate)
                && after.gateway.sessions == app.gateway.sessions.insert(id@, dir@))
            &&& run.phase == QueryPhase::MarkingBefore && ev is Marks ==> a is Ask && now.phase
                == QueryPhase::Asking
            &&& run.phase == QueryPhase::Asking && (ev matches Event::Answered {
                result,
                sent_error,
            } && result is Ok) ==> a is Mark && now.phase == QueryPhase::MarkingAfter
            &&& run.phase == QueryPhase::MarkingAfter ==> (ev matches Event::Marks(marks) ==> (if changed(
                run.before,
                snapshot_of(mark_models(marks@)),
            ).len() > 0 {
                a is Seal && now.phase == QueryPhase::Sealing
            } else {
                a matches ActionOf::Respond { status, body } && status == 200
            }))
            &&& run.phase == QueryPhase::Sealing && went_well(ev) ==> (a matches ActionOf::Respond {
                status,
                body,
            } && status == 200)
        }),
{
}

/// A query changes nothing in the state but settings that it had to look for, and a session that it
/// had to open.
pub proof fn law_query_leaves_the_rest(run: Query, app: App, ev: Event)
    ensures
        ({
            let now = query_next(run, app, ev).1;
            &&& now.root == app.root
            &&& now.admin_token == app.admin_token
            &&& now.skills_root == app.skills_root
            &&& now.config_path == app.config_path
            &&& now.chat == app.chat
            &&& now.gateway.salt == app.gateway.salt
            &&& now.gateway.token == app.gateway.token
            &&& now.gateway.closed_at == app.gateway.closed_at
            &&& now.llm != app.llm ==> ev is Llm && run.phase == QueryPhase::Configuring
            &&& now.session != app.session ==> ev is Opened && run.phase == QueryPhase::Opening
        }),
{
}

} // verus!
